use vstd::prelude::*;
use crate::error::SessionError;
use vstd::string::StringSliceAdditionalSpecFns;

verus! {

/// Largest value of one four-digit group.
pub const GROUP_MAX: u16 = 9999;

/// A pairing code: two groups of four decimal digits, written `NNNN-NNNN`.
#[derive(Debug, Clone, Copy, PartialEq, Eq, Structural)]
pub struct PairingCode {
    pub high: u16,
    pub low: u16,
}

pub open spec fn is_digit(b: u8) -> bool {
    48 <= b <= 57
}

/// The four bytes from `i` on are decimal digits.
pub open spec fn digits_at(s: Seq<u8>, i: int) -> bool {
    &&& 0 <= i
    &&& i + 4 <= s.len()
    &&& forall|k: int| i <= k < i + 4 ==> is_digit(#[trigger] s[k])
}

/// The number that the four digits from `i` on spell.
pub open spec fn group_at(s: Seq<u8>, i: int) -> int {
    (s[i] - 48) * 1000 + (s[i + 1] - 48) * 100 + (s[i + 2] - 48) * 10 + (s[i + 3] - 48)
}

/// The ASCII digit for `d < 10`.
pub open spec fn digit_byte(d: int) -> u8 {
    (48 + d) as u8
}

/// A group written with four digits, leading zeros kept.
pub open spec fn group_text(g: int) -> Seq<u8> {
    seq![digit_byte(g / 1000), digit_byte((g / 100) % 10), digit_byte((g / 10) % 10), digit_byte(g % 10)]
}

/// The canonical text of a code.
pub open spec fn code_text(c: PairingCode) -> Seq<u8> {
    group_text(c.high as int) + seq![45u8] + group_text(c.low as int)
}

/// What a text parses to: the canonical `NNNN-NNNN`, or the eight digits without the dash.
pub open spec fn parse_code(s: Seq<u8>) -> Option<PairingCode> {
    if s.len() == 9 && s[4] == 45 && digits_at(s, 0) && digits_at(s, 5) {
        Some(PairingCode { high: group_at(s, 0) as u16, low: group_at(s, 5) as u16 })
    } else if s.len() == 8 && digits_at(s, 0) && digits_at(s, 4) {
        Some(PairingCode { high: group_at(s, 0) as u16, low: group_at(s, 4) as u16 })
    } else {
        None
    }
}

impl PairingCode {
    /// Both groups are within `0000`..=`9999`.
    pub open spec fn wf(&self) -> bool {
        self.high <= GROUP_MAX && self.low <= GROUP_MAX
    }

    /// The code as one eight-digit number.
    pub open spec fn value(&self) -> nat {
        self.high as nat * 10000 + self.low as nat
    }

    /// The code as one eight-digit number.
    pub fn number(&self) -> (r: u32)
        requires
            self.wf(),
        ensures
            r as nat == self.value(),
    {
        self.high as u32 * 10000 + self.low as u32
    }

    /// The canonical text `NNNN-NNNN`, as ASCII bytes.
    pub fn text(&self) -> (r: Vec<u8>)
        requires
            self.wf(),
        ensures
            r@ == code_text(*self),
    {
        let mut r: Vec<u8> = Vec::new();
        push_group(&mut r, self.high);
        r.push(45u8);
        push_group(&mut r, self.low);
        r
    }
}

fn push_group(out: &mut Vec<u8>, g: u16)
    requires
        g <= GROUP_MAX,
    ensures
        final(out)@ == old(out)@ + group_text(g as int),
{
    out.push(48u8 + (g / 1000) as u8);
    out.push(48u8 + ((g / 100) % 10) as u8);
    out.push(48u8 + ((g / 10) % 10) as u8);
    out.push(48u8 + (g % 10) as u8);
    assert(final(out)@ =~= old(out)@ + group_text(g as int));
}

fn digits_from(s: &[u8], i: usize) -> (r: bool)
    requires
        i + 4 <= s@.len(),
    ensures
        r == digits_at(s@, i as int),
{
    let n: usize = s.len();
    let end: usize = i + 4;
    let mut k: usize = i;
    while k < end
        invariant
            end == i + 4,
            end <= n == s@.len(),
            i <= k <= end,
            i + 4 <= s@.len(),
            forall|j: int| i <= j < k ==> is_digit(#[trigger] s@[j]),
        decreases end - k,
    {
        if s[k] < 48 || s[k] > 57 {
            return false;
        }
        k = k + 1;
    }
    true
}

fn group_from(s: &[u8], i: usize) -> (r: u16)
    requires
        digits_at(s@, i as int),
    ensures
        r as int == group_at(s@, i as int),
        r <= GROUP_MAX,
{
    assert(is_digit(s@[i as int]) && is_digit(s@[i + 1]) && is_digit(s@[i + 2]) && is_digit(s@[i + 3]));
    (s[i] - 48) as u16 * 1000 + (s[i + 1] - 48) as u16 * 100 + (s[i + 2] - 48) as u16 * 10 + (s[i + 3] - 48) as u16
}

/// Parses entered bytes: `NNNN-NNNN`, or the eight digits alone.
pub fn validate_bytes(input: &[u8]) -> (r: Result<PairingCode, SessionError>)
    ensures
        match parse_code(input@) {
            Some(c) => r == Ok::<PairingCode, SessionError>(c) && c.wf(),
            None => r == Err::<PairingCode, SessionError>(SessionError::MalformedCode),
        },
{
    let n = input.len();
    if n == 9 && input[4] == 45 && digits_from(input, 0) && digits_from(input, 5) {
        Ok(PairingCode { high: group_from(input, 0), low: group_from(input, 5) })
    } else if n == 8 && digits_from(input, 0) && digits_from(input, 4) {
        Ok(PairingCode { high: group_from(input, 0), low: group_from(input, 4) })
    } else {
        Err(SessionError::MalformedCode)
    }
}

/// Parses text a user entered: `NNNN-NNNN`, or the eight digits alone.
pub fn validate(input: &str) -> (r: Result<PairingCode, SessionError>)
    ensures
        match parse_code(input.spec_bytes()) {
            Some(c) => r == Ok::<PairingCode, SessionError>(c) && c.wf(),
            None => r == Err::<PairingCode, SessionError>(SessionError::MalformedCode),
        },
{
    validate_bytes(input.as_bytes())
}

/// Relies on rand::random_range: a value drawn from the thread's generator, within the
/// inclusive range given (which is never empty here).
#[verifier::external_body]
fn random_up_to(max: u16) -> (r: u16)
    ensures
        r <= max,
{
    rand::random_range(0..=max)
}

/// A fresh code, each group drawn at random from `0000`..=`9999`.
pub fn generate() -> (r: PairingCode)
    ensures
        r.wf(),
{
    let high = random_up_to(GROUP_MAX);
    let low = random_up_to(GROUP_MAX);
    PairingCode { high, low }
}

proof fn lemma_group_round_trip(s: Seq<u8>, i: int, g: int)
    requires
        0 <= g <= 9999,
        0 <= i,
        i + 4 <= s.len(),
        s.subrange(i, i + 4) == group_text(g),
    ensures
        digits_at(s, i),
        group_at(s, i) == g,
{
    let a = g / 1000;
    let b = (g / 100) % 10;
    let c = (g / 10) % 10;
    let d = g % 10;
    assert(0 <= a <= 9 && 0 <= b <= 9 && 0 <= c <= 9 && 0 <= d <= 9);
    assert(g == a * 1000 + b * 100 + c * 10 + d);
    assert(s[i] == group_text(g)[0] && s[i] == 48 + a);
    assert(s[i + 1] == group_text(g)[1] && s[i + 1] == 48 + b);
    assert(s[i + 2] == group_text(g)[2] && s[i + 2] == 48 + c);
    assert(s[i + 3] == group_text(g)[3] && s[i + 3] == 48 + d);
}

/// Any well-formed code, written out canonically, parses back to itself.
/// (Generated codes are well formed by `generate`'s contract, so this covers them too.)
pub proof fn lemma_text_round_trip(c: PairingCode)
    requires
        c.wf(),
    ensures
        parse_code(code_text(c)) == Some(c),
{
    let s = code_text(c);
    assert(s.subrange(0, 4) =~= group_text(c.high as int));
    assert(s.subrange(5, 9) =~= group_text(c.low as int));
    lemma_group_round_trip(s, 0, c.high as int);
    lemma_group_round_trip(s, 5, c.low as int);
}

} // verus!
