//! Texts: numbers and addresses as text, and the message of a chain of errors.

use vstd::prelude::*;
use vstd::string::StrSliceExecFns;
use vstd::string::StringExecFns;

use crate::value::PanicModel;
use crate::value::PanicPayload;

verus! {

/// The text that `String::from_utf8_lossy` makes of `bytes`.
pub uninterp spec fn lossy_text(bytes: Seq<u8>) -> Seq<char>;

/// `bytes` as text: what they encode, if they are UTF-8, and else their lossy text.
pub open spec fn text_of(bytes: Seq<u8>) -> Seq<char> {
    if vstd::utf8::valid_utf8(bytes) {
        vstd::utf8::decode_utf8(bytes)
    } else {
        lossy_text(bytes)
    }
}

/// Calls `String::from_utf8_lossy`: bytes in UTF-8 come out as the text they encode; what comes
/// out of other bytes depends on them alone.
#[verifier::external_body]
pub(crate) fn utf8_lossy(bytes: &[u8]) -> (r: String)
    ensures
        r@ == lossy_text(bytes@),
        r@ == text_of(bytes@),
{
    String::from_utf8_lossy(bytes).into_owned()
}

/// The digit of value `d`.
pub open spec fn digit(d: int) -> char {
    "0123456789abcdef"@[d]
}

/// `n` written in base `base`.
pub open spec fn digits(n: nat, base: nat) -> Seq<char>
    decreases n,
{
    if n < base || base < 2 {
        seq![digit(n as int)]
    } else {
        proof {
            assert(n / base < n) by (nonlinear_arith)
                requires
                    n >= base,
                    base >= 2,
            ;
        }
        digits(n / base, base).push(digit((n % base) as int))
    }
}

pub open spec fn decimal_text(i: int) -> Seq<char> {
    if i < 0 {
        "-"@ + digits((-i) as nat, 10)
    } else {
        digits(i as nat, 10)
    }
}

pub open spec fn address_text(a: u64) -> Seq<char> {
    "0x"@ + digits(a as nat, 16)
}

fn write_digits(n: u64, base: u64) -> (r: String)
    requires
        2 <= base <= 16,
    ensures
        r@ == digits(n as nat, base as nat),
    decreases n,
{
    proof {
        reveal_strlit("0123456789abcdef");
    }
    if n < base {
        let d: usize = n as usize;
        let r = "0123456789abcdef".substring_char(d, d + 1).to_owned();
        assert(r@ =~= digits(n as nat, base as nat));
        r
    } else {
        assert(n / base < n) by (nonlinear_arith)
            requires
                n >= base,
                base >= 2,
        ;
        let mut r = write_digits(n / base, base);
        let d: usize = (n % base) as usize;
        r.append("0123456789abcdef".substring_char(d, d + 1));
        assert(r@ =~= digits(n as nat, base as nat));
        r
    }
}

/// The decimal text of `i`.
pub fn decimal(i: i64) -> (r: String)
    ensures
        r@ == decimal_text(i as int),
{
    if i < 0 {
        let mut r = "-".to_owned();
        let n: u64 = if i == i64::MIN {
            0x8000_0000_0000_0000
        } else {
            (-i) as u64
        };
        r.append(write_digits(n, 10).as_str());
        r
    } else {
        write_digits(i as u64, 10)
    }
}

/// `a` between brackets, after the word `kind`.
pub fn bracketed(kind: &str, a: u64) -> (r: String)
    ensures
        r@ == "<"@ + kind@ + " "@ + address_text(a) + ">"@,
{
    let mut r = "<".to_owned();
    r.append(kind);
    r.append(" ");
    r.append("0x");
    r.append(write_digits(a, 16).as_str());
    r.append(">");
    assert(r@ =~= "<"@ + kind@ + " "@ + address_text(a) + ">"@);
    r
}

/// `p` stands in `s` from position `i` on.
pub open spec fn occurs_at(s: Seq<char>, p: Seq<char>, i: int) -> bool {
    0 <= i && i + p.len() <= s.len() && s.subrange(i, i + p.len()) == p
}

pub open spec fn occurs(s: Seq<char>, p: Seq<char>) -> bool {
    exists|i: int| occurs_at(s, p, i)
}

/// Position `i` is the first one where `p` stands in `s`.
pub open spec fn occurs_first_at(s: Seq<char>, p: Seq<char>, i: int) -> bool {
    occurs_at(s, p, i) && forall|j: int| #[trigger] occurs_at(s, p, j) ==> i <= j
}

/// What follows the first `p` in `s`.
pub open spec fn rest_after(s: Seq<char>, p: Seq<char>) -> Seq<char> {
    s.skip((choose|i: int| occurs_first_at(s, p, i)) + p.len())
}

/// `s` ends with `p`.
pub open spec fn ends(s: Seq<char>, p: Seq<char>) -> bool {
    occurs_at(s, p, s.len() - p.len())
}

fn chars_of(s: &str) -> (r: Vec<char>)
    ensures
        r@ == s@,
{
    let n: usize = s.unicode_len();
    let mut r: Vec<char> = Vec::new();
    let mut i: usize = 0;
    while i < n
        invariant
            n == s@.len(),
            i <= n,
            r@ == s@.take(i as int),
        decreases n - i,
    {
        r.push(s.get_char(i));
        i = i + 1;
    }
    r
}

fn matches_at(s: &Vec<char>, p: &Vec<char>, i: usize) -> (r: bool)
    requires
        i + p@.len() <= s@.len(),
    ensures
        r == occurs_at(s@, p@, i as int),
{
    let n: usize = s.len();
    let mut k: usize = 0;
    while k < p.len()
        invariant
            k <= p@.len(),
            n == s@.len(),
            i + p@.len() <= s@.len(),
            forall|j: int| 0 <= j < k ==> s@[i + j] == p@[j],
        decreases p@.len() - k,
    {
        if s[i + k] != p[k] {
            assert(s@.subrange(i as int, i + p@.len())[k as int] != p@[k as int]);
            return false;
        }
        k = k + 1;
    }
    assert(s@.subrange(i as int, i + p@.len()) =~= p@);
    true
}

/// The position, in characters, of the first `p` in `s`.
pub fn find(s: &str, p: &str) -> (r: Option<usize>)
    ensures
        match r {
            Some(i) => occurs_first_at(s@, p@, i as int),
            None => !occurs(s@, p@),
        },
{
    let sc = chars_of(s);
    let pc = chars_of(p);
    if pc.len() > sc.len() {
        return None;
    }
    let last: usize = sc.len() - pc.len();
    let mut i: usize = 0;
    while i <= last
        invariant
            sc@ == s@,
            pc@ == p@,
            last == s@.len() - p@.len(),
            i <= last + 1,
            forall|j: int| 0 <= j < i ==> !occurs_at(s@, p@, j),
        decreases last + 1 - i,
    {
        if matches_at(&sc, &pc, i) {
            return Some(i);
        }
        if i == last {
            assert(forall|j: int| !occurs_at(s@, p@, j));
            return None;
        }
        i = i + 1;
    }
    None
}

/// Whether `s` ends with `p`.
pub fn ends_with(s: &str, p: &str) -> (r: bool)
    ensures
        r == ends(s@, p@),
{
    let sc = chars_of(s);
    let pc = chars_of(p);
    if pc.len() > sc.len() {
        false
    } else {
        matches_at(&sc, &pc, sc.len() - pc.len())
    }
}

/// The text of a panic: its message, where it has one.
pub open spec fn panic_message(p: PanicModel) -> Seq<char> {
    match p {
        PanicModel::Literal(s) => s,
        PanicModel::Message(s) => s,
        PanicModel::Opaque(_) => "<panic>"@,
    }
}

pub fn panic_text(p: &PanicPayload) -> (r: String)
    ensures
        r@ == panic_message(p@),
{
    match p {
        PanicPayload::Literal(s) => s.clone(),
        PanicPayload::Message(s) => s.clone(),
        PanicPayload::Opaque(_) => "<panic>".to_owned(),
    }
}

/// The text that goes before a stack traceback.
pub open spec fn traceback_mark() -> Seq<char> {
    "\nstack traceback:\n"@
}

/// The message of an error: its own text, the text of the last in the chain of its sources and,
/// where that one comes without a traceback, the traceback of the source before it.
///
/// `texts` holds the text of the error and then those of its sources, from the nearest on.
pub open spec fn chain_message(texts: Seq<Seq<char>>) -> Seq<char> {
    let n = texts.len() - 1;
    if n <= 0 {
        texts[0]
    } else {
        texts[0] + "\ncaused by: "@ + texts[n] + if n >= 2 && !occurs(texts[n], traceback_mark())
            && occurs(texts[n - 1], traceback_mark()) {
            traceback_mark() + rest_after(texts[n - 1], traceback_mark())
        } else {
            Seq::empty()
        }
    }
}

/// The texts as sequences of characters.
pub open spec fn texts_of(texts: Seq<String>) -> Seq<Seq<char>> {
    texts.map_values(|t: String| t@)
}

pub fn chain_text(texts: &Vec<String>) -> (r: String)
    requires
        texts@.len() > 0,
    ensures
        r@ == chain_message(texts_of(texts@)),
{
    let ghost ts = texts_of(texts@);
    let mut r = texts[0].clone();
    let n: usize = texts.len() - 1;
    if n > 0 {
        r.append("\ncaused by: ");
        r.append(texts[n].as_str());
        if n >= 2 && find(texts[n].as_str(), "\nstack traceback:\n").is_none() {
            match find(texts[n - 1].as_str(), "\nstack traceback:\n") {
                Some(i) => {
                    let mark: usize = "\nstack traceback:\n".unicode_len();
                    let end: usize = texts[n - 1].as_str().unicode_len();
                    let rest = texts[n - 1].as_str().substring_char(i + mark, end);
                    proof {
                        let t = ts[n - 1];
                        let k = choose|k: int| occurs_first_at(t, traceback_mark(), k);
                        assert(occurs_first_at(t, traceback_mark(), i as int));
                        assert(occurs_at(t, traceback_mark(), k));
                        assert(k == i);
                        assert(rest@ =~= rest_after(t, traceback_mark()));
                    }
                    r.append("\nstack traceback:\n");
                    r.append(rest);
                },
                None => {},
            }
        }
    }
    assert(r@ =~= chain_message(ts));
    r
}

} // verus!
