//! What holds of the texts that the library writes.

use vstd::prelude::*;

use crate::failure::popped;
use crate::failure::value_text;
use crate::state::State;
use crate::text::address_text;
use crate::text::chain_message;
use crate::text::decimal_text;
use crate::text::digit;
use crate::text::digits;
use crate::text::ends;
use crate::text::lossy_text;
use crate::text::occurs;
use crate::text::occurs_at;
use crate::text::occurs_first_at;
use crate::text::panic_message;
use crate::text::rest_after;
use crate::text::text_of;
use crate::value::ErrorModel;
use crate::value::Failed;
use crate::value::FailureModel;
use crate::value::PanicModel;
use crate::value::PayloadModel;
use crate::value::Pointer;
use crate::value::Status;
use crate::value::Value;

verus! {

/// The number that a digit stands for.
pub open spec fn digit_value(c: char) -> int {
    if '0' <= c <= '9' {
        c as int - '0' as int
    } else {
        c as int - 'a' as int + 10
    }
}

/// `c` is a digit of a number in base `base`.
pub open spec fn is_digit(c: char, base: nat) -> bool {
    ('0' <= c <= '9' || 'a' <= c <= 'f') && digit_value(c) < base
}

/// The number that a text reads as in base `base`.
pub open spec fn number(text: Seq<char>, base: nat) -> int
    decreases text.len(),
{
    if text.len() == 0 {
        0
    } else {
        number(text.drop_last(), base) * base + digit_value(text.last())
    }
}

proof fn lemma_digit(d: int)
    requires
        0 <= d < 16,
    ensures
        is_digit(digit(d), 16),
        digit_value(digit(d)) == d,
        digit(d) == '0' <==> d == 0,
{
    reveal_strlit("0123456789abcdef");
}

/// What is written in base ten or sixteen reads back as the number, in digits of that base and
/// without leading zeros.
pub proof fn law_digits_read_back(n: nat, base: nat)
    requires
        2 <= base <= 16,
    ensures
        number(digits(n, base), base) == n,
        digits(n, base).len() >= 1,
        forall|i: int|
            0 <= i < digits(n, base).len() ==> is_digit(#[trigger] digits(n, base)[i], base),
        digits(n, base)[0] == '0' ==> n == 0,
        n < base ==> digits(n, base).len() == 1,
    decreases n,
{
    if n < base {
        lemma_digit(n as int);
        let d = digits(n, base);
        assert(d.drop_last() =~= Seq::empty());
        assert(number(d.drop_last(), base) == 0);
        assert(0 * base == 0) by (nonlinear_arith);
    } else {
        assert(n / base < n && n / base >= 1) by (nonlinear_arith)
            requires
                n >= base,
                base >= 2,
        ;
        assert((n / base) * base + n % base == n && 0 <= n % base < base) by (nonlinear_arith)
            requires
                base >= 2,
        ;
        law_digits_read_back(n / base, base);
        lemma_digit((n % base) as int);
        let d = digits(n, base);
        assert(d.drop_last() =~= digits(n / base, base));
    }
}

/// An integer is written in decimal, with a minus sign where it is negative.
pub proof fn law_decimal(i: int)
    requires
        i >= 0,
    ensures
        number(decimal_text(i), 10) == i,
        forall|k: int|
            0 <= k < decimal_text(i).len() ==> '0' <= #[trigger] decimal_text(i)[k] <= '9',
        decimal_text(i).len() >= 1,
        decimal_text(i)[0] == '0' ==> i == 0 && decimal_text(i).len() == 1,
        i > 0 ==> decimal_text(-i) == "-"@ + decimal_text(i),
{
    law_digits_read_back(i as nat, 10);
    assert forall|k: int| 0 <= k < decimal_text(i).len() implies '0' <= #[trigger] decimal_text(
        i,
    )[k] <= '9' by {
        assert(is_digit(digits(i as nat, 10)[k], 10));
    }
}

/// An address is written in hexadecimal, in lower case, after `0x`.
pub proof fn law_address(a: u64)
    ensures
        ({
            let t = address_text(a);
            let hex = t.skip(2);
            &&& t.len() >= 3
            &&& t[0] == '0' && t[1] == 'x'
            &&& number(hex, 16) == a
            &&& forall|k: int| 0 <= k < hex.len() ==> is_digit(#[trigger] hex[k], 16)
            &&& hex[0] == '0' ==> a == 0 && hex.len() == 1
        }),
{
    reveal_strlit("0x");
    law_digits_read_back(a as nat, 16);
    assert(address_text(a).skip(2) =~= digits(a as nat, 16));
}

/// A text ends with what was put at its end, and with nothing else.
pub proof fn law_ends(head: Seq<char>, tail: Seq<char>, s: Seq<char>)
    ensures
        ends(head + tail, tail),
        ends(s, tail) ==> s == s.take(s.len() - tail.len()) + tail,
        (exists|h: Seq<char>| s == #[trigger] (h + tail)) <==> ends(s, tail),
{
    let t = head + tail;
    assert(t.subrange(t.len() - tail.len(), t.len() as int) =~= tail);
    if ends(s, tail) {
        assert(s =~= s.take(s.len() - tail.len()) + tail);
    }
    if exists|h: Seq<char>| s == #[trigger] (h + tail) {
        let h = choose|h: Seq<char>| s == #[trigger] (h + tail);
        assert(s.subrange(s.len() - tail.len(), s.len() as int) =~= tail);
    }
}

/// A mark occurs in a text that is put together around it. What follows its first occurrence is
/// what was put behind it, where it does not begin any earlier.
pub proof fn law_occurs(head: Seq<char>, mark: Seq<char>, tail: Seq<char>)
    ensures
        occurs(head + mark + tail, mark),
        (forall|j: int|
            0 <= j < head.len() ==> #[trigger] (head + mark + tail).subrange(j, j + mark.len())
                != mark) ==> rest_after(head + mark + tail, mark) == tail,
{
    let s = head + mark + tail;
    let n = head.len() as int;
    assert(s.subrange(n, n + mark.len()) =~= mark);
    assert(occurs_at(s, mark, n));
    if forall|j: int|
        0 <= j < head.len() ==> #[trigger] s.subrange(j, j + mark.len()) != mark {
        assert forall|j: int| #[trigger] occurs_at(s, mark, j) implies n <= j by {}
        assert(occurs_first_at(s, mark, n));
        let i = choose|i: int| occurs_first_at(s, mark, i);
        assert(occurs_at(s, mark, i));
        assert(i == n);
        assert(s.skip(n + mark.len()) =~= tail);
    }
}

/// A mark occurs in a text only where the text can be taken apart around it.
pub proof fn law_occurs_in_parts(s: Seq<char>, mark: Seq<char>)
    requires
        occurs(s, mark),
    ensures
        exists|head: Seq<char>, tail: Seq<char>| s == #[trigger] (head + mark + tail),
{
    let i = choose|i: int| occurs_at(s, mark, i);
    let head = s.take(i);
    let tail = s.skip(i + mark.len());
    assert(s =~= head + mark + tail);
}

/// The message of an error without sources is its own text, and that of an error with one
/// source shows this source.
pub proof fn law_chain_of_few(error: Seq<char>, source: Seq<char>)
    ensures
        chain_message(seq![error]) == error,
        chain_message(seq![error, source]) == error + "\ncaused by: "@ + source,
{
    let none: Seq<char> = Seq::empty();
    assert(error + "\ncaused by: "@ + source + none =~= error + "\ncaused by: "@ + source);
}

/// The message of an error with a chain of sources shows the last one. Where that one has a
/// traceback, or the one before it has none, that is all.
pub proof fn law_chain_shows_the_last(
    error: Seq<char>,
    between: Seq<Seq<char>>,
    before: Seq<char>,
    last: Seq<char>,
)
    requires
        occurs(last, "\nstack traceback:\n"@) || !occurs(before, "\nstack traceback:\n"@),
    ensures
        chain_message(seq![error] + between + seq![before, last]) == error + "\ncaused by: "@
            + last,
{
    let texts = seq![error] + between + seq![before, last];
    let n = texts.len() - 1;
    assert(texts[0] == error && texts[n] == last && texts[n - 1] == before);
    let none: Seq<char> = Seq::empty();
    assert(error + "\ncaused by: "@ + last + none =~= error + "\ncaused by: "@ + last);
}

/// Where the last source comes without a traceback, it gets the one of the source before it:
/// all that follows the first mark of a traceback in that text.
pub proof fn law_chain_borrows_the_traceback(
    error: Seq<char>,
    between: Seq<Seq<char>>,
    head: Seq<char>,
    trace: Seq<char>,
    last: Seq<char>,
)
    requires
        !occurs(last, "\nstack traceback:\n"@),
        forall|j: int|
            0 <= j < head.len() ==> #[trigger] (head + "\nstack traceback:\n"@ + trace).subrange(
                j,
                j + "\nstack traceback:\n"@.len(),
            ) != "\nstack traceback:\n"@,
    ensures
        chain_message(
            seq![error] + between + seq![head + "\nstack traceback:\n"@ + trace, last],
        ) == error + "\ncaused by: "@ + last + "\nstack traceback:\n"@ + trace,
{
    let mark = "\nstack traceback:\n"@;
    let before = head + mark + trace;
    let texts = seq![error] + between + seq![before, last];
    let n = texts.len() - 1;
    assert(texts[0] == error && texts[n] == last && texts[n - 1] == before);
    law_occurs(head, mark, trace);
    assert(error + "\ncaused by: "@ + last + (mark + trace) =~= error + "\ncaused by: "@ + last
        + mark + trace);
}

/// The text of a panic is its message, where it has one.
pub proof fn law_panic_text(message: Seq<char>, n: u64)
    ensures
        panic_message(PanicModel::Literal(message)) == message,
        panic_message(PanicModel::Message(message)) == message,
        panic_message(PanicModel::Opaque(n)) == "<panic>"@,
{
}

/// Each value has its text: what it is, for those that can be written out, and else its type
/// and its address.
pub proof fn law_text_of_values<O>(s: State<O>, idx: int)
    requires
        s.valid(idx),
    ensures
        match s.at(idx) {
            Value::Nil => value_text(s, idx) == "<nil>"@,
            Value::Boolean(true) => value_text(s, idx) == "true"@,
            Value::Boolean(false) => value_text(s, idx) == "false"@,
            Value::Integer(i) => value_text(s, idx) == decimal_text(i as int),
            Value::Number { text: _, whole: Some(i) } => value_text(s, idx) == decimal_text(
                i as int,
            ),
            Value::Number { text, whole: None } => value_text(s, idx) == text,
            Value::Str(b) => value_text(s, idx) == if vstd::utf8::valid_utf8(b) {
                vstd::utf8::decode_utf8(b)
            } else {
                lossy_text(b)
            },
            Value::LightUserdata(Pointer::Host(a)) => value_text(s, idx) == "<"@
                + "lightuserdata"@ + " "@ + address_text(a) + ">"@,
            Value::Table(a) => value_text(s, idx) == "<"@ + "table"@ + " "@ + address_text(a)
                + ">"@,
            Value::Closure(a) => value_text(s, idx) == "<"@ + "function"@ + " "@ + address_text(a)
                + ">"@,
            Value::Userdata(a) => value_text(s, idx) == "<"@ + "userdata"@ + " "@ + address_text(a)
                + ">"@,
            Value::Thread(a) => value_text(s, idx) == "<"@ + "thread"@ + " "@ + address_text(a)
                + ">"@,
            Value::LightUserdata(_) => value_text(s, idx) == "<"@ + "lightuserdata"@ + " "@
                + address_text(s.env.address(s.at(idx))) + ">"@,
            Value::CFunction(_) => value_text(s, idx) == "<"@ + "function"@ + " "@ + address_text(
                s.env.address(s.at(idx)),
            ) + ">"@,
            Value::Other(_) => value_text(s, idx) == "<unknown>"@,
        },
{
}

/// An index that names nothing has a text too.
pub proof fn law_text_of_nothing<O>(s: State<O>, idx: int)
    requires
        !s.valid(idx),
    ensures
        value_text(s, idx) == "<none>"@,
{
}

/// A string that the library writes reads back as what was written.
pub proof fn law_text_of_written(text: Seq<char>)
    ensures
        text_of(vstd::utf8::encode_utf8(text)) == text,
{
    vstd::utf8::encode_utf8_valid_utf8(text);
    vstd::utf8::encode_utf8_decode_utf8(text);
}

/// An error that wraps no host failure is popped, as the error that its status stands for, with
/// its text as the message. A lack of memory and an error of the garbage collector are told from
/// runtime errors; an error in the message handler is not.
pub proof fn law_plain_errors<O>(s: State<O>)
    requires
        s.stack.len() >= 1,
        s.heap.failure(s.stack.last()) is None,
    ensures
        ({
            let text = value_text(s, -1);
            let rest = State { stack: s.stack.drop_last(), ..s };
            &&& popped(s, Status::ErrRun) == (rest, Failed::Error(ErrorModel::RuntimeError(text)))
            &&& popped(s, Status::ErrErr) == (rest, Failed::Error(ErrorModel::RuntimeError(text)))
            &&& popped(s, Status::ErrMem) == (rest, Failed::Error(ErrorModel::MemoryError(text)))
            &&& popped(s, Status::ErrGcmm) == (
                rest,
                Failed::Error(ErrorModel::GarbageCollectorError(text)),
            )
            &&& popped(s, Status::ErrSyntax).0 == rest
            &&& popped(s, Status::ErrSyntax).1 matches Failed::Error(
                ErrorModel::SyntaxError { message, incomplete_input: _ },
            ) && message == text
        }),
{
    assert(s.pop(1) =~= (State { stack: s.stack.drop_last(), ..s }));
}

/// A syntax error at the end of the input says that the input is incomplete: its message is any
/// text followed by the mark of that end, plain or in quotes.
pub proof fn law_incomplete_input<O>(s: State<O>, head: Seq<char>)
    requires
        s.stack.len() >= 1,
    ensures
        s.stack.last() == Value::Str(vstd::utf8::encode_utf8(head + "<eof>"@)) ==> popped(
            s,
            Status::ErrSyntax,
        ).1 == Failed::Error(
            ErrorModel::SyntaxError { message: head + "<eof>"@, incomplete_input: true },
        ),
        s.stack.last() == Value::Str(vstd::utf8::encode_utf8(head + "'<eof>'"@)) ==> popped(
            s,
            Status::ErrSyntax,
        ).1 == Failed::Error(
            ErrorModel::SyntaxError { message: head + "'<eof>'"@, incomplete_input: true },
        ),
{
    law_text_of_written(head + "<eof>"@);
    law_text_of_written(head + "'<eof>'"@);
    law_ends(head, "<eof>"@, head);
    law_ends(head, "'<eof>'"@, head);
    assert(s.valid(-1) && s.at(-1) == s.stack.last());
}

/// Any other syntax error says that the input is complete.
pub proof fn law_complete_input<O>(s: State<O>, text: Seq<char>)
    requires
        s.stack.len() >= 1,
        s.stack.last() == Value::Str(vstd::utf8::encode_utf8(text)),
        forall|head: Seq<char>| text != #[trigger] (head + "<eof>"@),
        forall|head: Seq<char>| text != #[trigger] (head + "'<eof>'"@),
    ensures
        popped(s, Status::ErrSyntax).1 == Failed::Error(
            ErrorModel::SyntaxError { message: text, incomplete_input: false },
        ),
{
    law_text_of_written(text);
    law_ends(text, "<eof>"@, text);
    law_ends(text, "'<eof>'"@, text);
    assert(s.valid(-1) && s.at(-1) == s.stack.last());
}

/// A syntax error says that the input is incomplete if and only if its message ends with the mark
/// of the end of the input, plain or in quotes.
pub proof fn law_syntax_error<O>(s: State<O>, text: Seq<char>)
    requires
        s.stack.len() >= 1,
        s.stack.last() == Value::Str(vstd::utf8::encode_utf8(text)),
    ensures
        popped(s, Status::ErrSyntax).1 == Failed::Error(
            ErrorModel::SyntaxError {
                message: text,
                incomplete_input: {
                    ||| exists|head: Seq<char>| text == #[trigger] (head + "<eof>"@)
                    ||| exists|head: Seq<char>| text == #[trigger] (head + "'<eof>'"@)
                },
            },
        ),
{
    if exists|head: Seq<char>| text == #[trigger] (head + "<eof>"@) {
        let head = choose|head: Seq<char>| text == #[trigger] (head + "<eof>"@);
        law_incomplete_input(s, head);
    } else if exists|head: Seq<char>| text == #[trigger] (head + "'<eof>'"@) {
        let head = choose|head: Seq<char>| text == #[trigger] (head + "'<eof>'"@);
        law_incomplete_input(s, head);
    } else {
        law_complete_input(s, text);
    }
}

/// A wrapped host error is popped and returned; a wrapped panic is handed out and stays on the
/// stack without it; a panic that was resumed before is popped and is an error of its own.
pub proof fn law_wrapped_failures<O>(s: State<O>, status: Status)
    requires
        s.stack.len() >= 1,
        s.heap.failure(s.stack.last()) is Some,
    ensures
        ({
            let rest = State { stack: s.stack.drop_last(), ..s };
            let a = s.stack.last()->Userdata_0;
            let (t, e) = popped(s, status);
            match s.heap.failure(s.stack.last())->0 {
                FailureModel::Error(x) => t == rest && e == Failed::Error(x),
                FailureModel::Panic(None) => t == rest && e == Failed::Error(
                    ErrorModel::PreviouslyResumedPanic,
                ),
                FailureModel::Panic(Some(p)) => {
                    &&& e == Failed::Panic(p)
                    &&& t.stack == s.stack
                    &&& t.heap.userdata[a].payload == PayloadModel::<O>::Failure(
                        FailureModel::Panic(None),
                    )
                    &&& t.heap.userdata[a].metatable == s.heap.userdata[a].metatable
                    &&& t.heap.tables == s.heap.tables && t.heap.closures == s.heap.closures
                    &&& forall|b: u64| b != a && #[trigger] s.heap.userdata.contains_key(b)
                        ==> t.heap.userdata[b] == s.heap.userdata[b]
                },
            }
        }),
{
    assert(s.pop(1) =~= (State { stack: s.stack.drop_last(), ..s }));
}

} // verus!
