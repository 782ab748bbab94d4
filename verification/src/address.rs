//! Network addresses of peers and their textual form.
//!
//! An address is held as plain numbers: four octets for IPv4, eight 16-bit
//! groups for IPv6. Its text is the conventional one: dotted decimal for
//! IPv4; for IPv6 lower-case hexadecimal groups separated by colons, with
//! the leftmost longest run of two or more zero groups written as `::`, and
//! with IPv4-mapped addresses written as `::ffff:` followed by the dotted
//! quad.

use vstd::prelude::*;
use vstd::string::*;
use crate::numeral::{decimal, hexadecimal, push_decimal, push_hexadecimal};

verus! {

/// An IPv4 or IPv6 address.
#[derive(Clone, Copy, Debug)]
pub enum IpAddress {
    /// The four octets, most significant first.
    V4([u8; 4]),
    /// The eight groups, most significant first.
    V6([u16; 8]),
}

/// Four octets in dotted decimal.
pub open spec fn dotted_quad(octets: Seq<u8>) -> Seq<char> {
    decimal(octets[0] as nat) + seq!['.'] + decimal(octets[1] as nat) + seq!['.'] + decimal(
        octets[2] as nat,
    ) + seq!['.'] + decimal(octets[3] as nat)
}

/// Groups in hexadecimal with a colon between neighbours.
pub open spec fn colon_groups(groups: Seq<u16>) -> Seq<char>
    decreases groups.len(),
{
    if groups.len() == 0 {
        Seq::empty()
    } else if groups.len() == 1 {
        hexadecimal(groups[0] as nat)
    } else {
        colon_groups(groups.drop_last()) + seq![':'] + hexadecimal(groups.last() as nat)
    }
}

/// Every group in `start .. start + len` is zero.
pub open spec fn all_zero(groups: Seq<u16>, start: int, len: int) -> bool {
    &&& 0 <= start
    &&& 0 <= len
    &&& start + len <= groups.len()
    &&& forall|i: int| start <= i < start + len ==> groups[i] == 0
}

/// `start .. start + len` is a run of zero groups, no run of zero groups is
/// longer, and none of the same length starts further left.
pub open spec fn is_leftmost_longest(groups: Seq<u16>, start: int, len: int) -> bool {
    &&& all_zero(groups, start, len)
    &&& forall|a: int, n: int| #[trigger]
        all_zero(groups, a, n) ==> n < len || (n == len && start <= a)
}

/// The number of zero groups that end directly before index `end`.
pub open spec fn trailing_zeros(groups: Seq<u16>, end: int) -> int
    decreases end,
{
    if end <= 0 || groups[end - 1] != 0 {
        0
    } else {
        1 + trailing_zeros(groups, end - 1)
    }
}

/// Start and length of the leftmost longest run of zero groups within the
/// first `end` groups; `(0, 0)` where there is none.
pub open spec fn widest_zero_run(groups: Seq<u16>, end: int) -> (int, int)
    decreases end,
{
    if end <= 0 {
        (0, 0)
    } else {
        let before = widest_zero_run(groups, end - 1);
        let current = trailing_zeros(groups, end);
        if current > before.1 {
            (end - current, current)
        } else {
            before
        }
    }
}

/// The groups are those of an IPv4-mapped address, `::ffff:a.b.c.d`.
pub open spec fn is_v4_mapped(groups: Seq<u16>) -> bool {
    &&& groups[0] == 0
    &&& groups[1] == 0
    &&& groups[2] == 0
    &&& groups[3] == 0
    &&& groups[4] == 0
    &&& groups[5] == 0xffff
}

/// The four octets held by the last two groups.
pub open spec fn embedded_octets(groups: Seq<u16>) -> Seq<u8> {
    seq![
        (groups[6] / 256) as u8,
        (groups[6] % 256) as u8,
        (groups[7] / 256) as u8,
        (groups[7] % 256) as u8,
    ]
}

/// The text of an IPv6 address given by its eight groups.
pub open spec fn v6_text(groups: Seq<u16>) -> Seq<char> {
    if is_v4_mapped(groups) {
        seq![':', ':', 'f', 'f', 'f', 'f', ':'] + dotted_quad(embedded_octets(groups))
    } else {
        let run = widest_zero_run(groups, 8);
        if run.1 >= 2 {
            colon_groups(groups.subrange(0, run.0)) + seq![':', ':'] + colon_groups(
                groups.subrange(run.0 + run.1, 8),
            )
        } else {
            colon_groups(groups)
        }
    }
}

impl IpAddress {
    /// The text of the address.
    pub open spec fn spec_text(self) -> Seq<char> {
        match self {
            IpAddress::V4(octets) => dotted_quad(octets@),
            IpAddress::V6(groups) => v6_text(groups@),
        }
    }

    /// The text of the address.
    pub fn text(&self) -> (text: String)
        ensures
            text@ == self.spec_text(),
    {
        let mut out = String::new();
        match self {
            IpAddress::V4(octets) => {
                push_dotted_quad(&mut out, octets[0], octets[1], octets[2], octets[3]);
                assert(out@ =~= dotted_quad(octets@));
            },
            IpAddress::V6(groups) => {
                push_v6(&mut out, groups);
                assert(out@ =~= v6_text(groups@));
            },
        }
        out
    }
}

/// Appends four octets in dotted decimal.
fn push_dotted_quad(out: &mut String, a: u8, b: u8, c: u8, d: u8)
    ensures
        final(out)@ == old(out)@ + dotted_quad(seq![a, b, c, d]),
{
    proof {
        reveal_strlit(".");
    }
    push_decimal(out, a as u16);
    out.append(".");
    push_decimal(out, b as u16);
    out.append(".");
    push_decimal(out, c as u16);
    out.append(".");
    push_decimal(out, d as u16);
    assert(final(out)@ =~= old(out)@ + dotted_quad(seq![a, b, c, d]));
}

/// Appends the groups `from .. to` in hexadecimal, colons between them.
fn push_colon_groups(out: &mut String, groups: &[u16; 8], from: usize, to: usize)
    requires
        from <= to <= 8,
    ensures
        final(out)@ == old(out)@ + colon_groups(groups@.subrange(from as int, to as int)),
{
    let mut i: usize = from;
    while i < to
        invariant
            from <= i <= to <= 8,
            out@ == old(out)@ + colon_groups(groups@.subrange(from as int, i as int)),
        decreases to - i,
    {
        let ghost done = groups@.subrange(from as int, i as int);
        let ghost next = groups@.subrange(from as int, i + 1);
        assert(next.drop_last() =~= done);
        assert(next.last() == groups@[i as int]);
        proof {
            reveal_strlit(":");
        }
        if i > from {
            out.append(":");
        }
        push_hexadecimal(out, groups[i]);
        assert(colon_groups(next) =~= if i == from {
            hexadecimal(groups@[i as int] as nat)
        } else {
            colon_groups(done) + seq![':'] + hexadecimal(groups@[i as int] as nat)
        });
        assert(":"@ =~= seq![':']);
        assert(out@ =~= old(out)@ + colon_groups(next));
        i += 1;
    }
}

/// Finds the leftmost longest run of zero groups.
fn find_zero_run(groups: &[u16; 8]) -> (run: (usize, usize))
    ensures
        (run.0 as int, run.1 as int) == widest_zero_run(groups@, 8),
        run.0 + run.1 <= 8,
{
    let mut best_start: usize = 0;
    let mut best_len: usize = 0;
    let mut current: usize = 0;
    let mut i: usize = 0;
    while i < 8
        invariant
            i <= 8,
            current == trailing_zeros(groups@, i as int),
            current <= i,
            (best_start as int, best_len as int) == widest_zero_run(groups@, i as int),
            best_start + best_len <= i,
        decreases 8 - i,
    {
        if groups[i] == 0 {
            current += 1;
            if current > best_len {
                best_start = i + 1 - current;
                best_len = current;
            }
        } else {
            current = 0;
        }
        i += 1;
    }
    (best_start, best_len)
}

/// Appends the text of an IPv6 address.
fn push_v6(out: &mut String, groups: &[u16; 8])
    ensures
        final(out)@ == old(out)@ + v6_text(groups@),
{
    if groups[0] == 0 && groups[1] == 0 && groups[2] == 0 && groups[3] == 0 && groups[4] == 0
        && groups[5] == 0xffff {
        proof {
            reveal_strlit("::ffff:");
        }
        out.append("::ffff:");
        let high: u16 = groups[6];
        let low: u16 = groups[7];
        push_dotted_quad(
            out,
            (high / 256) as u8,
            (high % 256) as u8,
            (low / 256) as u8,
            (low % 256) as u8,
        );
        assert(seq![
            (high / 256) as u8,
            (high % 256) as u8,
            (low / 256) as u8,
            (low % 256) as u8,
        ] =~= embedded_octets(groups@));
        assert("::ffff:"@ =~= seq![':', ':', 'f', 'f', 'f', 'f', ':']);
        assert(final(out)@ =~= old(out)@ + v6_text(groups@));
    } else {
        let run = find_zero_run(groups);
        if run.1 >= 2 {
            proof {
                reveal_strlit("::");
            }
            push_colon_groups(out, groups, 0, run.0);
            out.append("::");
            push_colon_groups(out, groups, run.0 + run.1, 8);
            assert("::"@ =~= seq![':', ':']);
            assert(final(out)@ =~= old(out)@ + v6_text(groups@));
        } else {
            push_colon_groups(out, groups, 0, 8);
            assert(groups@.subrange(0, 8) =~= groups@);
        }
    }
}

/// The run that the text of an IPv6 address abbreviates is a run of zero
/// groups which is as long as any other and lies left of every other of
/// its length.
pub proof fn lemma_widest_zero_run(groups: Seq<u16>, end: int)
    requires
        0 <= end <= groups.len(),
    ensures
        is_leftmost_longest(
            groups.subrange(0, end),
            widest_zero_run(groups, end).0,
            widest_zero_run(groups, end).1,
        ),
    decreases end,
{
    let prefix = groups.subrange(0, end);
    let run = widest_zero_run(groups, end);
    if end > 0 {
        lemma_widest_zero_run(groups, end - 1);
        lemma_trailing_zeros(groups, end);
        let shorter = groups.subrange(0, end - 1);
        let before = widest_zero_run(groups, end - 1);
        let current = trailing_zeros(groups, end);
        assert(all_zero(shorter, before.0, before.1));
        assert(all_zero(prefix, run.0, run.1));
        assert forall|a: int, n: int| #[trigger] all_zero(prefix, a, n) implies n < run.1 || (n
            == run.1 && run.0 <= a) by {
            if a + n <= end - 1 {
                assert(all_zero(shorter, a, n));
            } else {
                lemma_run_within_trailing(groups, end, a, n);
            }
        }
    } else {
        assert(all_zero(prefix, 0, 0));
    }
}

/// The groups counted by `trailing_zeros` are zero, and they lie in range.
proof fn lemma_trailing_zeros(groups: Seq<u16>, end: int)
    requires
        0 <= end <= groups.len(),
    ensures
        0 <= trailing_zeros(groups, end) <= end,
        all_zero(
            groups.subrange(0, end),
            end - trailing_zeros(groups, end),
            trailing_zeros(groups, end),
        ),
    decreases end,
{
    if end > 0 && groups[end - 1] == 0 {
        lemma_trailing_zeros(groups, end - 1);
        let inner = groups.subrange(0, end - 1);
        let start = end - trailing_zeros(groups, end);
        assert(all_zero(inner, start, trailing_zeros(groups, end - 1)));
        assert forall|i: int| start <= i < end implies groups.subrange(0, end)[i] == 0 by {
            if i < end - 1 {
                assert(inner[i] == 0);
            }
        }
    }
}

/// A run of zero groups that ends at `end` is no longer than
/// `trailing_zeros` says.
proof fn lemma_run_within_trailing(groups: Seq<u16>, end: int, a: int, n: int)
    requires
        0 <= end <= groups.len(),
        all_zero(groups.subrange(0, end), a, n),
        a + n == end,
    ensures
        n <= trailing_zeros(groups, end),
    decreases n,
{
    lemma_trailing_zeros(groups, end);
    if n > 0 {
        assert(groups.subrange(0, end)[end - 1] == 0);
        assert(groups[end - 1] == 0);
        let inner = groups.subrange(0, end - 1);
        assert forall|i: int| a <= i < a + (n - 1) implies inner[i] == 0 by {
            assert(groups.subrange(0, end)[i] == 0);
        }
        lemma_run_within_trailing(groups, end - 1, a, n - 1);
    }
}

} // verus!
