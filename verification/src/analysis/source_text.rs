//! Source text addressed by UTF-8 byte offsets, as syntax trees report them.
use vstd::prelude::*;
use vstd::utf8::{char_is_scalar, encode_utf8};

use crate::text::{chars_of, lemma_encode_utf8_concat, string_of, subseq};

verus! {

/// Number of UTF-8 bytes of a character.
pub open spec fn utf8_width(c: char) -> nat {
    encode_utf8(seq![c]).len()
}

/// Byte offset of the character at index `k`.
pub open spec fn byte_offset(s: Seq<char>, k: int) -> nat {
    encode_utf8(s.take(k)).len()
}

/// The character index whose byte offset is `b`, if `b` is a character
/// boundary of `s` (the end of `s` included).
pub open spec fn char_index_at(s: Seq<char>, b: int) -> Option<int> {
    if exists|k: int| 0 <= k <= s.len() && byte_offset(s, k) == b {
        Some(choose|k: int| 0 <= k <= s.len() && byte_offset(s, k) == b)
    } else {
        None
    }
}

/// `str::get(a..b)`: the text between byte offsets `a` and `b`, when both
/// are character boundaries and `a <= b`.
pub open spec fn text_at(s: Seq<char>, a: int, b: int) -> Option<Seq<char>> {
    match (char_index_at(s, a), char_index_at(s, b)) {
        (Some(i), Some(j)) => if i <= j {
            Some(s.subrange(i, j))
        } else {
            None
        },
        _ => None,
    }
}

proof fn lemma_encode_single(c: char)
    ensures
        utf8_width(c) == if (c as u32) <= 0x7F {
            1nat
        } else if (c as u32) <= 0x7FF {
            2nat
        } else if (c as u32) <= 0xFFFF {
            3nat
        } else {
            4nat
        },
        utf8_width(c) >= 1,
{
    char_is_scalar(c);
    reveal_with_fuel(encode_utf8, 2);
    assert(seq![c].drop_first() =~= Seq::<char>::empty());
}

/// Offsets grow by the width of each character.
proof fn lemma_byte_offset_step(s: Seq<char>, k: int)
    requires
        0 <= k < s.len(),
    ensures
        byte_offset(s, k + 1) == byte_offset(s, k) + utf8_width(s[k]),
{
    assert(s.take(k + 1) =~= s.take(k) + seq![s[k]]);
    lemma_encode_utf8_concat(s.take(k), seq![s[k]]);
}

/// Offsets strictly increase with the character index.
pub proof fn lemma_byte_offset_increasing(s: Seq<char>, i: int, j: int)
    requires
        0 <= i < j <= s.len(),
    ensures
        byte_offset(s, i) < byte_offset(s, j),
    decreases j - i,
{
    lemma_byte_offset_step(s, j - 1);
    lemma_encode_single(s[j - 1]);
    if i < j - 1 {
        lemma_byte_offset_increasing(s, i, j - 1);
    }
}

proof fn lemma_byte_offset_total(s: Seq<char>)
    ensures
        byte_offset(s, s.len() as int) == encode_utf8(s).len(),
{
    assert(s.take(s.len() as int) =~= s);
}

/// When `k` has byte offset `b`, `k` is the character index at `b`.
pub proof fn lemma_char_index_at(s: Seq<char>, k: int)
    requires
        0 <= k <= s.len(),
    ensures
        char_index_at(s, byte_offset(s, k) as int) == Some(k),
{
    let b = byte_offset(s, k) as int;
    assert(exists|x: int| 0 <= x <= s.len() && byte_offset(s, x) == b);
    let c = choose|x: int| 0 <= x <= s.len() && byte_offset(s, x) == b;
    if c < k {
        lemma_byte_offset_increasing(s, c, k);
    } else if k < c {
        lemma_byte_offset_increasing(s, k, c);
    }
}

/// The characters of a text and the byte offset of each of them.
pub struct SourceText {
    pub chars: Vec<char>,
    pub offsets: Vec<usize>,
}

impl SourceText {
    pub open spec fn wf(&self) -> bool {
        &&& self.offsets@.len() == self.chars@.len() + 1
        &&& forall|k: int|
            0 <= k <= self.chars@.len() ==> #[trigger] self.offsets@[k] == byte_offset(
                self.chars@,
                k,
            )
    }

    /// Indexes the characters of `s` by byte offset.
    pub fn new(s: &str) -> (r: SourceText)
        ensures
            r.wf(),
            r.chars@ == s@,
    {
        let chars = chars_of(s);
        let total = s.as_bytes().len();
        proof {
            lemma_byte_offset_total(s@);
        }
        let mut offsets: Vec<usize> = Vec::new();
        offsets.push(0);
        assert(chars@.take(0) =~= Seq::<char>::empty());
        let mut at: usize = 0;
        for k in 0..chars.len()
            invariant
                chars@ == s@,
                total == encode_utf8(s@).len(),
                byte_offset(s@, s@.len() as int) == total,
                offsets@.len() == k + 1,
                at == byte_offset(chars@, k as int),
                forall|t: int| 0 <= t <= k ==> #[trigger] offsets@[t] == byte_offset(chars@, t),
        {
            let c = chars[k];
            let u = c as u32;
            proof {
                lemma_byte_offset_step(chars@, k as int);
                lemma_encode_single(c);
                if k + 1 < chars@.len() {
                    lemma_byte_offset_increasing(chars@, k + 1, chars@.len() as int);
                }
            }
            let width: usize = if u <= 0x7F {
                1
            } else if u <= 0x7FF {
                2
            } else if u <= 0xFFFF {
                3
            } else {
                4
            };
            at = at + width;
            offsets.push(at);
        }
        SourceText { chars, offsets }
    }

    /// The character index at byte offset `b`, if `b` is a boundary.
    pub fn index_at(&self, b: usize) -> (r: Option<usize>)
        requires
            self.wf(),
        ensures
            match r {
                Some(k) => char_index_at(self.chars@, b as int) == Some(k as int),
                None => char_index_at(self.chars@, b as int) is None,
            },
    {
        let n = self.chars.len();
        if b > self.offsets[n] {
            proof {
                if char_index_at(self.chars@, b as int) is Some {
                    let k = char_index_at(self.chars@, b as int)->0;
                    if k < n {
                        lemma_byte_offset_increasing(self.chars@, k, n as int);
                    }
                }
            }
            return None;
        }
        let mut lo: usize = 0;
        let mut hi: usize = n;
        while lo < hi
            invariant
                self.wf(),
                n == self.chars@.len(),
                lo <= hi <= n,
                b <= self.offsets@[n as int],
                lo > 0 ==> self.offsets@[lo - 1] < b,
                self.offsets@[hi as int] >= b,
            decreases hi - lo,
        {
            let mid = lo + (hi - lo) / 2;
            if self.offsets[mid] < b {
                lo = mid + 1;
            } else {
                hi = mid;
            }
        }
        if self.offsets[lo] == b {
            proof {
                lemma_char_index_at(self.chars@, lo as int);
            }
            Some(lo)
        } else {
            proof {
                if char_index_at(self.chars@, b as int) is Some {
                    let k = char_index_at(self.chars@, b as int)->0;
                    if k < lo {
                        lemma_byte_offset_increasing(self.chars@, k, lo - 1);
                        if k == lo - 1 {
                        }
                    } else if k > lo {
                        lemma_byte_offset_increasing(self.chars@, lo as int, k);
                    }
                }
            }
            None
        }
    }

    /// `str::get(a..b)`.
    pub fn text(&self, a: usize, b: usize) -> (r: Option<String>)
        requires
            self.wf(),
        ensures
            match r {
                Some(t) => text_at(self.chars@, a as int, b as int) == Some(t@),
                None => text_at(self.chars@, a as int, b as int) is None,
            },
    {
        match (self.index_at(a), self.index_at(b)) {
            (Some(i), Some(j)) => {
                if i <= j {
                    let t = subseq(&self.chars, i, j);
                    Some(string_of(&t))
                } else {
                    None
                }
            },
            _ => None,
        }
    }
}

} // verus!
