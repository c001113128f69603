//! Sequence indices and the file names that carry them.
//!
//! A message container is named by its index in decimal, padded with zeros to
//! four digits, followed by `.message`. Reading goes the other way and is
//! strict: a name that ends in `.message` must hold an index before it.

use vstd::prelude::*;

verus! {

/// The bytes of `.message`.
pub open spec fn suffix() -> Seq<u8> {
    seq![46u8, 109u8, 101u8, 115u8, 115u8, 97u8, 103u8, 101u8]
}

/// A file name belongs to a message container when it ends in `.message` and
/// something stands before that.
pub open spec fn is_message_name(name: Seq<u8>) -> bool {
    name.len() > 8 && name.subrange(name.len() - 8, name.len() as int) == suffix()
}

/// What stands before `.message` in a message container's name.
pub open spec fn stem(name: Seq<u8>) -> Seq<u8> {
    name.subrange(0, name.len() - 8)
}

/// Whether every byte is an ASCII digit.
pub open spec fn all_digits(s: Seq<u8>) -> bool {
    forall|i: int| 0 <= i < s.len() ==> 48 <= #[trigger] s[i] <= 57
}

/// The number that a run of ASCII digits writes in base ten.
pub open spec fn digits_value(s: Seq<u8>) -> nat
    decreases s.len(),
{
    if s.len() == 0 {
        0
    } else {
        digits_value(s.drop_last()) * 10 + (s.last() - 48) as nat
    }
}

/// The digits of a stem: the stem itself, without one leading `+`.
pub open spec fn unsigned_part(s: Seq<u8>) -> Seq<u8> {
    if s.len() > 0 && s[0] == 43 {
        s.subrange(1, s.len() as int)
    } else {
        s
    }
}

/// The index that a stem writes: an optional `+`, then one or more digits
/// whose value fits in sixteen bits. Anything else writes none.
pub open spec fn parse_spec(s: Seq<u8>) -> Option<u16> {
    let d = unsigned_part(s);
    if d.len() > 0 && all_digits(d) && digits_value(d) <= 65535 {
        Some(digits_value(d) as u16)
    } else {
        None
    }
}

/// The digits of an index, at least four of them.
pub open spec fn index_digits(n: u16) -> Seq<u8> {
    let d0 = (48 + n % 10) as u8;
    let d1 = (48 + (n / 10) % 10) as u8;
    let d2 = (48 + (n / 100) % 10) as u8;
    let d3 = (48 + (n / 1000) % 10) as u8;
    let d4 = (48 + (n / 10000) % 10) as u8;
    if n < 10000 {
        seq![d3, d2, d1, d0]
    } else {
        seq![d4, d3, d2, d1, d0]
    }
}

/// The name of the message container at an index.
pub open spec fn file_name_spec(n: u16) -> Seq<u8> {
    index_digits(n) + suffix()
}

/// A longer run of digits is worth at least as much as any of its prefixes.
proof fn lemma_prefix_value(s: Seq<u8>, k: int)
    requires
        0 <= k <= s.len(),
        all_digits(s),
    ensures
        digits_value(s.subrange(0, k)) <= digits_value(s),
    decreases s.len() - k,
{
    if k == s.len() {
        assert(s.subrange(0, k) == s);
    } else {
        lemma_prefix_value(s, k + 1);
        let t = s.subrange(0, k + 1);
        assert(t.drop_last() == s.subrange(0, k));
        assert(t.last() == s[k]);
    }
}

/// Reads the index that a stem writes.
pub fn parse_index(s: &[u8]) -> (r: Option<u16>)
    ensures
        r == parse_spec(s@),
{
    let start: usize = if s.len() > 0 && s[0] == 43 { 1 } else { 0 };
    let ghost d = unsigned_part(s@);
    assert(d == s@.subrange(start as int, s@.len() as int));
    if start == s.len() {
        return None;
    }
    let mut acc: u32 = 0;
    let mut i: usize = start;
    while i < s.len()
        invariant
            start <= i <= s.len(),
            d == unsigned_part(s@),
            d == s@.subrange(start as int, s@.len() as int),
            all_digits(d.subrange(0, i - start)),
            acc == digits_value(d.subrange(0, i - start)),
            acc <= 65535,
        decreases s.len() - i,
    {
        let b = s[i];
        let ghost before = d.subrange(0, i - start);
        let ghost after = d.subrange(0, i - start + 1);
        assert(after.drop_last() == before);
        assert(after.last() == b);
        if b < 48 || b > 57 {
            assert(!all_digits(d)) by {
                assert(d[i - start] == b);
            }
            return None;
        }
        assert(all_digits(after)) by {
            assert forall|j: int| 0 <= j < after.len() implies 48 <= #[trigger] after[j] <= 57 by {
                if j < before.len() {
                    assert(after[j] == before[j]);
                }
            }
        }
        let next: u32 = acc * 10 + (b - 48) as u32;
        assert(next == digits_value(after));
        if next > 65535 {
            proof {
                if all_digits(d) {
                    lemma_prefix_value(d, i - start + 1);
                }
            }
            return None;
        }
        acc = next;
        i = i + 1;
    }
    assert(d.subrange(0, i - start) == d);
    Some(acc as u16)
}

/// Whether a file name is that of a message container.
pub fn has_suffix(name: &[u8]) -> (r: bool)
    ensures
        r == is_message_name(name@),
{
    let n = name.len();
    if n <= 8 {
        return false;
    }
    let ghost tail = name@.subrange(n - 8, n as int);
    let r = name[n - 8] == 46 && name[n - 7] == 109 && name[n - 6] == 101 && name[n - 5] == 115
        && name[n - 4] == 115 && name[n - 3] == 97 && name[n - 2] == 103 && name[n - 1] == 101;
    proof {
        assert(tail.len() == 8);
        assert(tail[0] == name@[n - 8] && tail[1] == name@[n - 7] && tail[2] == name@[n - 6]
            && tail[3] == name@[n - 5] && tail[4] == name@[n - 4] && tail[5] == name@[n - 3]
            && tail[6] == name@[n - 2] && tail[7] == name@[n - 1]);
        if r {
            assert(tail =~= suffix());
        } else {
            assert(suffix()[0] == 46 && suffix()[1] == 109 && suffix()[2] == 101 && suffix()[3]
                == 115 && suffix()[4] == 115 && suffix()[5] == 97 && suffix()[6] == 103
                && suffix()[7] == 101);
        }
    }
    r
}

/// The index in the name of a message container; `None` where the name holds
/// none.
pub fn index_of_name(name: &[u8]) -> (r: Option<u16>)
    requires
        is_message_name(name@),
    ensures
        r == parse_spec(stem(name@)),
{
    let n = name.len();
    let head = vstd::slice::slice_subrange(name, 0, n - 8);
    parse_index(head)
}

/// Writes the name of the message container at an index.
pub fn file_name(n: u16) -> (name: Vec<u8>)
    ensures
        name@ == file_name_spec(n),
{
    let mut name: Vec<u8> = Vec::new();
    if n >= 10000 {
        name.push(48 + ((n / 10000) % 10) as u8);
    }
    name.push(48 + ((n / 1000) % 10) as u8);
    name.push(48 + ((n / 100) % 10) as u8);
    name.push(48 + ((n / 10) % 10) as u8);
    name.push(48 + (n % 10) as u8);
    assert(name@ =~= index_digits(n));
    name.push(46);
    name.push(109);
    name.push(101);
    name.push(115);
    name.push(115);
    name.push(97);
    name.push(103);
    name.push(101);
    assert(name@ =~= file_name_spec(n));
    name
}

} // verus!
