//! The field sanitizer: a pure transform over one field's raw bytes.
//!
//! Processing happens in a fixed order: every occurrence of the delimiter
//! byte is replaced by a space, then every occurrence of the terminator byte
//! (`\n`), and finally the result is repaired into valid UTF-8 if it is not
//! already valid.  Each step reports whether it changed anything.

use bstr::ByteVec;
use vstd::prelude::*;

verus! {

/// The byte written in place of a delimiter or terminator occurrence.
pub const SPACE: u8 = 32;

/// The record terminator byte, `\n`.
pub const TERMINATOR: u8 = 10;

/// `s` with every occurrence of `from` replaced by a space byte.
pub open spec fn replaced(s: Seq<u8>, from: u8) -> Seq<u8> {
    s.map_values(|b: u8| if b == from { SPACE } else { b })
}

/// `s` after both replacement steps: first the delimiter, then the terminator.
pub open spec fn cleaned(s: Seq<u8>, delimiter: u8) -> Seq<u8> {
    replaced(replaced(s, delimiter), TERMINATOR)
}

/// Whether `b` is a UTF-8 continuation byte.
pub open spec fn is_cont(b: u8) -> bool {
    0x80 <= b && b <= 0xBF
}

/// Whether `s` is valid UTF-8, following the standard table: ASCII bytes
/// stand alone; `C2..=DF`, `E0..=EF` and `F0..=F4` open two-, three- and
/// four-byte sequences with the usual bounds on their continuation bytes
/// (surrogates and code points above `U+10FFFF` are excluded).
pub open spec fn utf8_valid(s: Seq<u8>) -> bool
    decreases s.len(),
{
    s.len() == 0 || {
        let b0 = s[0];
        if b0 < 0x80 {
            utf8_valid(s.skip(1))
        } else if 0xC2 <= b0 && b0 <= 0xDF {
            s.len() >= 2 && is_cont(s[1]) && utf8_valid(s.skip(2))
        } else if b0 == 0xE0 {
            s.len() >= 3 && 0xA0 <= s[1] && s[1] <= 0xBF && is_cont(s[2]) && utf8_valid(s.skip(3))
        } else if b0 == 0xED {
            s.len() >= 3 && 0x80 <= s[1] && s[1] <= 0x9F && is_cont(s[2]) && utf8_valid(s.skip(3))
        } else if 0xE1 <= b0 && b0 <= 0xEF {
            s.len() >= 3 && is_cont(s[1]) && is_cont(s[2]) && utf8_valid(s.skip(3))
        } else if b0 == 0xF0 {
            s.len() >= 4 && 0x90 <= s[1] && s[1] <= 0xBF && is_cont(s[2]) && is_cont(s[3])
                && utf8_valid(s.skip(4))
        } else if 0xF1 <= b0 && b0 <= 0xF3 {
            s.len() >= 4 && is_cont(s[1]) && is_cont(s[2]) && is_cont(s[3]) && utf8_valid(s.skip(4))
        } else if b0 == 0xF4 {
            s.len() >= 4 && 0x80 <= s[1] && s[1] <= 0x8F && is_cont(s[2]) && is_cont(s[3])
                && utf8_valid(s.skip(4))
        } else {
            false
        }
    }
}

/// What the lossy UTF-8 repair of an outside library returns for `s`.
pub uninterp spec fn lossy_repair(s: Seq<u8>) -> Seq<u8>;

/// `s` interpreted as text: unchanged if valid UTF-8, lossily repaired if not.
pub open spec fn repaired(s: Seq<u8>) -> Seq<u8> {
    if utf8_valid(s) {
        s
    } else {
        lossy_repair(s)
    }
}

/// The sanitized form of a field: both replacement steps, then the repair.
pub open spec fn sanitized(s: Seq<u8>, delimiter: u8) -> Seq<u8> {
    repaired(cleaned(s, delimiter))
}

/// Which sanitization categories fired for a field, in evaluation order:
/// delimiter replacement, terminator replacement, encoding repair.
#[derive(Clone, Copy, Debug, PartialEq, Eq, Structural)]
pub struct Changes {
    pub delimiter_replacement: bool,
    pub terminator_replacement: bool,
    pub encoding_repair: bool,
}

impl Changes {
    /// The empty change set: nothing fired.
    pub open spec fn none() -> Changes {
        Changes {
            delimiter_replacement: false,
            terminator_replacement: false,
            encoding_repair: false,
        }
    }

    /// Whether at least one category fired.
    pub fn any(&self) -> (r: bool)
        ensures
            r == (*self != Changes::none()),
    {
        self.delimiter_replacement || self.terminator_replacement || self.encoding_repair
    }
}

/// The change set that sanitizing `s` with `delimiter` produces.
pub open spec fn changes_of(s: Seq<u8>, delimiter: u8) -> Changes {
    Changes {
        delimiter_replacement: replaced(s, delimiter) != s,
        terminator_replacement: cleaned(s, delimiter) != replaced(s, delimiter),
        encoding_repair: !utf8_valid(cleaned(s, delimiter)),
    }
}

/// Relies on bstr's `ByteVec::into_string` and `ByteVec::into_string_lossy`:
/// `into_string` succeeds exactly on valid UTF-8 and keeps the bytes as they
/// are; `into_string_lossy` copies every valid stretch byte for byte and
/// substitutes the UTF-8 encoding of U+FFFD (`0xEF 0xBF 0xBD`) for each
/// maximal invalid sequence, so its result is valid UTF-8 and every byte of
/// it either occurs in the input or is one of the three marker bytes.
#[verifier::external_body]
fn repair_utf8(bytes: Vec<u8>) -> (r: (Vec<u8>, bool))
    ensures
        r.1 == !utf8_valid(bytes@),
        !r.1 ==> r.0@ == bytes@,
        r.1 ==> r.0@ == lossy_repair(bytes@),
        utf8_valid(r.0@),
        forall|i: int|
            0 <= i < r.0@.len() ==> bytes@.contains(r.0@[i]) || r.0@[i] == 0xEF || r.0@[i] == 0xBF
                || r.0@[i] == 0xBD,
{
    match bytes.into_string() {
        Ok(s) => (s.into_bytes(), false),
        Err(e) => (e.into_vec().into_string_lossy().into_bytes(), true),
    }
}

/// The replacement pass changes a sequence exactly when the sequence holds
/// the replaced byte and that byte is not itself the space byte.
proof fn lemma_replaced_diff(s: Seq<u8>, from: u8)
    ensures
        (replaced(s, from) != s) <==> (from != SPACE && exists|k: int|
            0 <= k < s.len() && s[k] == from),
{
    if from != SPACE && exists|k: int| 0 <= k < s.len() && s[k] == from {
        let k = choose|k: int| 0 <= k < s.len() && s[k] == from;
        assert(replaced(s, from)[k] == SPACE);
        if replaced(s, from) == s {
            assert(replaced(s, from)[k] == s[k]);
            assert(false);
        }
    } else {
        assert forall|k: int| 0 <= k < s.len() implies replaced(s, from)[k] == s[k] by {
            if s[k] == from {
                assert(exists|j: int| 0 <= j < s.len() && s[j] == from);
            }
        }
        assert(replaced(s, from) =~= s);
    }
}

/// One replacement pass: every occurrence of `from` becomes a space.  Also
/// reports whether the pass changed anything.
fn replace_byte(v: &Vec<u8>, from: u8) -> (r: (Vec<u8>, bool))
    ensures
        r.0@ == replaced(v@, from),
        r.1 == (replaced(v@, from) != v@),
{
    let mut out: Vec<u8> = Vec::new();
    let mut changed = false;
    let mut i: usize = 0;
    while i < v.len()
        invariant
            i <= v.len(),
            out@ == replaced(v@.take(i as int), from),
            changed <==> (from != SPACE && exists|k: int| 0 <= k < i && v@[k] == from),
        decreases v.len() - i,
    {
        let ghost pre = v@.take(i as int);
        let b = v[i];
        if b == from {
            out.push(SPACE);
            if from != SPACE {
                changed = true;
            }
        } else {
            out.push(b);
        }
        i += 1;
        proof {
            let cur = v@.take(i as int);
            assert(cur =~= pre.push(b));
            assert(replaced(cur, from) =~= replaced(pre, from).push(
                if b == from {
                    SPACE
                } else {
                    b
                },
            ));
        }
    }
    proof {
        assert(v@.take(i as int) =~= v@);
        lemma_replaced_diff(v@, from);
    }
    (out, changed)
}

/// Sanitize one field's raw bytes against `delimiter`.
///
/// Every occurrence of the delimiter byte, and then of the terminator byte
/// `\n`, is replaced by a space; the result is repaired into valid UTF-8 if
/// needed.  The returned change set records which of the three steps changed
/// anything; the caller decides what to do with it.
///
/// The contract also carries the general guarantees: the output never holds
/// the terminator byte; it never holds the delimiter byte unless the
/// delimiter is the space byte or one of the three replacement-marker bytes;
/// a field that is already valid and clean passes through unchanged; and the
/// output is a fixed point, so sanitizing it again changes nothing.
pub fn sanitize(field: &Vec<u8>, delimiter: u8) -> (r: (Vec<u8>, Changes))
    ensures
        r.0@ == sanitized(field@, delimiter),
        r.1 == changes_of(field@, delimiter),
        utf8_valid(r.0@),
        !r.0@.contains(TERMINATOR),
        delimiter != SPACE && delimiter != 0xEF && delimiter != 0xBF && delimiter != 0xBD
            ==> !r.0@.contains(delimiter),
        utf8_valid(field@) && !field@.contains(delimiter) && !field@.contains(TERMINATOR)
            ==> r.0@ == field@ && r.1 == Changes::none(),
        delimiter != SPACE && delimiter != 0xEF && delimiter != 0xBF && delimiter != 0xBD
            ==> sanitized(r.0@, delimiter) == r.0@ && changes_of(r.0@, delimiter)
                == Changes::none(),
{
    let (step1, delimiter_replacement) = replace_byte(field, delimiter);
    let (step2, terminator_replacement) = replace_byte(&step1, TERMINATOR);
    let ghost t2 = step2@;
    let (repaired_bytes, encoding_repair) = repair_utf8(step2);
    let changes = Changes { delimiter_replacement, terminator_replacement, encoding_repair };
    proof {
        lemma_sanitize_properties(field@, delimiter, t2, repaired_bytes@);
        if utf8_valid(field@) && !field@.contains(delimiter) && !field@.contains(TERMINATOR) {
            lemma_clean_identity(field@, delimiter);
        }
        if delimiter != SPACE && delimiter != 0xEF && delimiter != 0xBF && delimiter != 0xBD {
            lemma_clean_identity(repaired_bytes@, delimiter);
        }
    }
    (repaired_bytes, changes)
}

/// The cleaned bytes hold no terminator, and no delimiter unless the
/// delimiter is the space byte; the repair can add only marker bytes.
proof fn lemma_sanitize_properties(s: Seq<u8>, delimiter: u8, t2: Seq<u8>, out: Seq<u8>)
    requires
        t2 == cleaned(s, delimiter),
        out == repaired(t2),
        forall|i: int|
            0 <= i < out.len() ==> t2.contains(out[i]) || out[i] == 0xEF || out[i] == 0xBF
                || out[i] == 0xBD,
    ensures
        !out.contains(TERMINATOR),
        delimiter != SPACE ==> !t2.contains(delimiter),
        delimiter != SPACE && delimiter != 0xEF && delimiter != 0xBF && delimiter != 0xBD
            ==> !out.contains(delimiter),
{
    let t1 = replaced(s, delimiter);
    assert forall|i: int| 0 <= i < t2.len() implies t2[i] != TERMINATOR by {
        assert(t2[i] == if t1[i] == TERMINATOR {
            SPACE
        } else {
            t1[i]
        });
    }
    if delimiter != SPACE {
        assert forall|i: int| 0 <= i < t2.len() implies t2[i] != delimiter by {
            assert(t1[i] == if s[i] == delimiter {
                SPACE
            } else {
                s[i]
            });
        }
    }
    assert forall|i: int| 0 <= i < out.len() implies out[i] != TERMINATOR by {
        if t2.contains(out[i]) {
            let k = choose|k: int| 0 <= k < t2.len() && t2[k] == out[i];
            assert(t2[k] != TERMINATOR);
        }
    }
    if delimiter != SPACE && delimiter != 0xEF && delimiter != 0xBF && delimiter != 0xBD {
        assert forall|i: int| 0 <= i < out.len() implies out[i] != delimiter by {
            if t2.contains(out[i]) {
                let k = choose|k: int| 0 <= k < t2.len() && t2[k] == out[i];
                assert(t2[k] != delimiter);
            }
        }
    }
}

/// A sequence without the delimiter and without the terminator is left
/// unchanged by both replacement steps, and fires no change.
proof fn lemma_clean_identity(s: Seq<u8>, delimiter: u8)
    requires
        !s.contains(delimiter),
        !s.contains(TERMINATOR),
    ensures
        cleaned(s, delimiter) == s,
        replaced(s, delimiter) == s,
        utf8_valid(s) ==> sanitized(s, delimiter) == s && changes_of(s, delimiter)
            == Changes::none(),
{
    assert forall|i: int| 0 <= i < s.len() implies s[i] != delimiter && s[i] != TERMINATOR by {
        if s[i] == delimiter {
            assert(s.contains(delimiter));
        }
        if s[i] == TERMINATOR {
            assert(s.contains(TERMINATOR));
        }
    }
    assert(replaced(s, delimiter) =~= s);
    assert(replaced(replaced(s, delimiter), TERMINATOR) =~= s);
}

} // verus!
