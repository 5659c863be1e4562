//! Universally unique identifiers, held as two 64-bit halves, with the
//! canonical hyphenated lowercase text form.

use vstd::arithmetic::div_mod::{
    lemma_fundamental_div_mod, lemma_fundamental_div_mod_converse_div,
    lemma_fundamental_div_mod_converse_mod,
};
use vstd::prelude::*;

verus! {

/// A 128-bit identifier, split into its high and low 64-bit halves.
#[derive(Clone, Copy, PartialEq, Eq, Structural, Debug, Hash)]
pub struct Uuid {
    pub hi: u64,
    pub lo: u64,
}

impl Uuid {
    /// Builds an identifier from its two halves.
    pub fn new(hi: u64, lo: u64) -> (r: Uuid)
        ensures
            r.hi == hi,
            r.lo == lo,
    {
        Uuid { hi, lo }
    }

    /// Strict ordering on identifiers: high half first, then low half.
    pub open spec fn lt_spec(self, other: Uuid) -> bool {
        self.hi < other.hi || (self.hi == other.hi && self.lo < other.lo)
    }

    /// Compares two identifiers under the canonical ordering.
    pub fn lt(&self, other: &Uuid) -> (r: bool)
        ensures
            r == self.lt_spec(*other),
    {
        self.hi < other.hi || (self.hi == other.hi && self.lo < other.lo)
    }
}

/// The lowercase hexadecimal digit of a value below sixteen.
pub open spec fn hex_char_of(d: int) -> u8 {
    if d < 10 {
        (48 + d) as u8
    } else {
        (87 + d) as u8
    }
}

/// The value of a lowercase hexadecimal digit; anything else is negative.
pub open spec fn hex_val_of(c: u8) -> int {
    if 48 <= c <= 57 {
        c - 48
    } else if 97 <= c <= 102 {
        c - 87
    } else {
        -1
    }
}

/// The low `k` hexadecimal digits of `x`, most significant first, in
/// lowercase.
pub open spec fn hex_digits(x: int, k: nat) -> Seq<u8>
    decreases k,
{
    if k == 0 {
        Seq::empty()
    } else {
        hex_digits(x / 16, (k - 1) as nat).push(hex_char_of(x % 16))
    }
}

/// Sixteen raised to the `k`-th power.
pub open spec fn pow16(k: nat) -> int
    decreases k,
{
    if k == 0 {
        1
    } else {
        16 * pow16((k - 1) as nat)
    }
}

/// The powers of sixteen the canonical form works with.
pub proof fn lemma_pow16_values()
    ensures
        pow16(4) == 0x1_0000,
        pow16(8) == 0x1_0000_0000,
        pow16(12) == 0x1_0000_0000_0000,
        pow16(16) == 0x1_0000_0000_0000_0000,
{
    assert(pow16(0) == 1);
    assert(pow16(1) == 16);
    assert(pow16(2) == 0x100);
    assert(pow16(3) == 0x1000);
    assert(pow16(4) == 0x1_0000);
    assert(pow16(5) == 0x10_0000);
    assert(pow16(6) == 0x100_0000);
    assert(pow16(7) == 0x1000_0000);
    assert(pow16(8) == 0x1_0000_0000);
    assert(pow16(9) == 0x10_0000_0000);
    assert(pow16(10) == 0x100_0000_0000);
    assert(pow16(11) == 0x1000_0000_0000);
    assert(pow16(12) == 0x1_0000_0000_0000);
    assert(pow16(13) == 0x10_0000_0000_0000);
    assert(pow16(14) == 0x100_0000_0000_0000);
    assert(pow16(15) == 0x1000_0000_0000_0000);
    assert(pow16(16) == 0x1_0000_0000_0000_0000);
}

/// The ASCII hyphen.
pub const HYPHEN: u8 = 45;

/// The five groups of the canonical hyphenated form, drawn from the two
/// halves: widths eight, four, four, four and twelve.
pub open spec fn uuid_groups(u: Uuid) -> (int, int, int, int, int) {
    (
        u.hi as int / 0x1_0000_0000,
        (u.hi as int / 0x1_0000) % 0x1_0000,
        u.hi as int % 0x1_0000,
        u.lo as int / 0x1_0000_0000_0000,
        u.lo as int % 0x1_0000_0000_0000,
    )
}

/// The canonical hyphenated lowercase text of an identifier, as bytes.
pub open spec fn uuid_chars(u: Uuid) -> Seq<u8> {
    let (g1, g2, g3, g4, g5) = uuid_groups(u);
    hex_digits(g1, 8) + seq![HYPHEN] + hex_digits(g2, 4) + seq![HYPHEN] + hex_digits(g3, 4)
        + seq![HYPHEN] + hex_digits(g4, 4) + seq![HYPHEN] + hex_digits(g5, 12)
}

/// Appends the low `k` hexadecimal digits of `x`, most significant first.
pub fn push_hex(out: &mut Vec<u8>, x: u64, k: usize)
    requires
        k <= 16,
    ensures
        final(out)@ == old(out)@ + hex_digits(x as int, k as nat),
    decreases k,
{
    if k == 0 {
        proof {
            assert(out@ =~= out@ + hex_digits(x as int, 0));
        }
    } else {
        let ghost pre = out@;
        push_hex(out, x / 16, k - 1);
        let d: u64 = x % 16;
        let c: u8 = if d < 10 {
            48 + (d as u8)
        } else {
            87 + (d as u8)
        };
        out.push(c);
        proof {
            assert(c == hex_char_of(x as int % 16));
            assert(pre + hex_digits(x as int / 16, (k - 1) as nat).push(
                hex_char_of(x as int % 16),
            ) =~= (pre + hex_digits(x as int / 16, (k - 1) as nat)).push(
                hex_char_of(x as int % 16),
            ));
        }
    }
}

/// Appends the canonical hyphenated lowercase text of an identifier.
pub fn push_uuid_text(out: &mut Vec<u8>, u: &Uuid)
    ensures
        final(out)@ == old(out)@ + uuid_chars(*u),
{
    let ghost pre = out@;
    push_hex(out, u.hi / 0x1_0000_0000, 8);
    out.push(HYPHEN);
    push_hex(out, (u.hi / 0x1_0000) % 0x1_0000, 4);
    out.push(HYPHEN);
    push_hex(out, u.hi % 0x1_0000, 4);
    out.push(HYPHEN);
    push_hex(out, u.lo / 0x1_0000_0000_0000, 4);
    out.push(HYPHEN);
    push_hex(out, u.lo % 0x1_0000_0000_0000, 12);
    proof {
        assert(out@ =~= pre + uuid_chars(*u));
    }
}

/// The canonical hyphenated lowercase text of an identifier.
pub fn uuid_text(u: &Uuid) -> (r: Vec<u8>)
    ensures
        r@ == uuid_chars(*u),
{
    let mut out: Vec<u8> = Vec::new();
    push_uuid_text(&mut out, u);
    proof {
        assert(out@ =~= uuid_chars(*u));
    }
    out
}

/// Reads exactly `k` lowercase hexadecimal digits at `i`.
///
/// A successful parse returns the encoded value: the consumed bytes are
/// exactly its canonical digits. A parse fails exactly when the input is
/// too short or some byte is not a lowercase hexadecimal digit.
pub fn parse_hex_run(buf: &Vec<u8>, i: usize, k: usize) -> (r: Option<u64>)
    requires
        k <= 16,
    ensures
        r matches Some(v) ==> i + k <= buf@.len() && 0 <= v < pow16(k as nat) && buf@.subrange(
            i as int,
            i + k,
        ) == hex_digits(v as int, k as nat),
        r is None <==> i + k > buf@.len() || exists|j: int|
            i <= j < i + k && hex_val_of(#[trigger] buf@[j]) < 0,
{
    let n = buf.len();
    if n < k || i > n - k {
        return None;
    }
    let mut acc: u64 = 0;
    let mut j: usize = 0;
    proof {
        lemma_pow16_values();
        assert(buf@.subrange(i as int, i as int) =~= hex_digits(0, 0));
    }
    while j < k
        invariant
            j <= k,
            k <= 16,
            n == buf@.len(),
            i + k <= n,
            0 <= acc < pow16(j as nat),
            pow16(j as nat) <= pow16(16),
            pow16(16) == 0x1_0000_0000_0000_0000,
            buf@.subrange(i as int, i + j) == hex_digits(acc as int, j as nat),
            forall|l: int| i <= l < i + j ==> hex_val_of(#[trigger] buf@[l]) >= 0,
        decreases k - j,
    {
        let c: u8 = buf[i + j];
        let d: u64 = if 48 <= c && c <= 57 {
            (c - 48) as u64
        } else if 97 <= c && c <= 102 {
            (c - 87) as u64
        } else {
            proof {
                assert(hex_val_of(buf@[i + j]) < 0);
            }
            return None;
        };
        let ghost acc0 = acc as int;
        proof {
            lemma_pow16_values();
            assert(pow16((j + 1) as nat) == 16 * pow16(j as nat));
            lemma_pow16_increases(j as nat + 1, 16);
        }
        acc = acc * 16 + d;
        j = j + 1;
        proof {
            assert(d == hex_val_of(c));
            assert(acc as int / 16 == acc0 && acc as int % 16 == d) by {
                lemma_fundamental_div_mod_converse_div(acc as int, 16, acc0, d as int);
                lemma_fundamental_div_mod_converse_mod(acc as int, 16, acc0, d as int);
            }
            assert(hex_char_of(hex_val_of(c)) == c);
            assert(buf@.subrange(i as int, i + j) =~= buf@.subrange(i as int, i + j - 1).push(c));
            assert(hex_digits(acc as int, j as nat) == hex_digits(acc0, (j - 1) as nat).push(
                hex_char_of(acc as int % 16),
            ));
        }
    }
    Some(acc)
}

/// Powers of sixteen grow with the exponent.
pub proof fn lemma_pow16_increases(a: nat, b: nat)
    requires
        a <= b,
    ensures
        pow16(a) <= pow16(b),
        pow16(a) >= 1,
    decreases b,
{
    if a == b {
        lemma_pow16_pos(a);
    } else {
        lemma_pow16_increases(a, (b - 1) as nat);
    }
}

pub proof fn lemma_pow16_pos(k: nat)
    ensures
        pow16(k) >= 1,
    decreases k,
{
    if k > 0 {
        lemma_pow16_pos((k - 1) as nat);
    }
}

/// The halves recompose from the five groups, and each group fits its
/// width.
pub proof fn lemma_uuid_groups_recompose(u: Uuid)
    ensures
        ({
            let (g1, g2, g3, g4, g5) = uuid_groups(u);
            &&& u.hi as int == g1 * 0x1_0000_0000 + g2 * 0x1_0000 + g3
            &&& u.lo as int == g4 * 0x1_0000_0000_0000 + g5
            &&& 0 <= g1 < pow16(8)
            &&& 0 <= g2 < pow16(4)
            &&& 0 <= g3 < pow16(4)
            &&& 0 <= g4 < pow16(4)
            &&& 0 <= g5 < pow16(12)
        }),
{
    lemma_pow16_values();
    let hi = u.hi as int;
    let lo = u.lo as int;
    lemma_fundamental_div_mod(hi, 0x1_0000);
    lemma_fundamental_div_mod(hi / 0x1_0000, 0x1_0000);
    assert(hi / 0x1_0000 / 0x1_0000 == hi / 0x1_0000_0000) by {
        vstd::arithmetic::div_mod::lemma_div_denominator(hi, 0x1_0000, 0x1_0000);
    }
    lemma_fundamental_div_mod(lo, 0x1_0000_0000_0000);
    vstd::arithmetic::div_mod::lemma_mod_division_less_than_divisor(hi, 0x1_0000);
    vstd::arithmetic::div_mod::lemma_mod_division_less_than_divisor(hi / 0x1_0000, 0x1_0000);
    vstd::arithmetic::div_mod::lemma_mod_division_less_than_divisor(lo, 0x1_0000_0000_0000);
    assert(hi / 0x1_0000_0000 < pow16(8)) by {
        vstd::arithmetic::div_mod::lemma_multiply_divide_lt(hi, 0x1_0000_0000, pow16(8));
    }
    assert(lo / 0x1_0000_0000_0000 < pow16(4)) by {
        vstd::arithmetic::div_mod::lemma_multiply_divide_lt(lo, 0x1_0000_0000_0000, pow16(4));
    }
    vstd::arithmetic::div_mod::lemma_div_pos_is_pos(hi, 0x1_0000_0000);
    vstd::arithmetic::div_mod::lemma_div_pos_is_pos(hi, 0x1_0000);
    vstd::arithmetic::div_mod::lemma_div_pos_is_pos(lo, 0x1_0000_0000_0000);
}

/// The canonical text of an identifier is thirty-six bytes long.
pub proof fn lemma_uuid_chars_len(u: Uuid)
    ensures
        uuid_chars(u).len() == 36,
{
    lemma_uuid_chars_pieces(u);
}

/// The five digit groups of the canonical text, as subranges.
proof fn lemma_uuid_chars_pieces(u: Uuid)
    ensures
        uuid_chars(u).len() == 36,
        uuid_chars(u).subrange(0, 8) == hex_digits(uuid_groups(u).0, 8),
        uuid_chars(u)[8] == HYPHEN,
        uuid_chars(u).subrange(9, 13) == hex_digits(uuid_groups(u).1, 4),
        uuid_chars(u)[13] == HYPHEN,
        uuid_chars(u).subrange(14, 18) == hex_digits(uuid_groups(u).2, 4),
        uuid_chars(u)[18] == HYPHEN,
        uuid_chars(u).subrange(19, 23) == hex_digits(uuid_groups(u).3, 4),
        uuid_chars(u)[23] == HYPHEN,
        uuid_chars(u).subrange(24, 36) == hex_digits(uuid_groups(u).4, 12),
{
    let (g1, g2, g3, g4, g5) = uuid_groups(u);
    lemma_hex_digits_are_hex(g1, 8);
    lemma_hex_digits_are_hex(g2, 4);
    lemma_hex_digits_are_hex(g3, 4);
    lemma_hex_digits_are_hex(g4, 4);
    lemma_hex_digits_are_hex(g5, 12);
    assert(uuid_chars(u).subrange(0, 8) =~= hex_digits(g1, 8));
    assert(uuid_chars(u).subrange(9, 13) =~= hex_digits(g2, 4));
    assert(uuid_chars(u).subrange(14, 18) =~= hex_digits(g3, 4));
    assert(uuid_chars(u).subrange(19, 23) =~= hex_digits(g4, 4));
    assert(uuid_chars(u).subrange(24, 36) =~= hex_digits(g5, 12));
}

/// Reads a canonical hyphenated lowercase identifier at `i`: thirty-six
/// bytes. A successful parse consumes exactly the canonical text of the
/// returned identifier, and the canonical text of any identifier parses
/// back to it: the text form round-trips.
pub fn parse_uuid_text(buf: &Vec<u8>, i: usize) -> (r: Option<Uuid>)
    ensures
        r matches Some(u) ==> i + 36 <= buf@.len() && buf@.subrange(i as int, i + 36)
            == uuid_chars(u),
        forall|u0: Uuid|
            i + 36 <= buf@.len() && buf@.subrange(i as int, i + 36) == uuid_chars(u0) ==> r
                == Some(u0),
{
    proof {
        assert forall|u0: Uuid|
            i + 36 <= buf@.len() && buf@.subrange(i as int, i + 36) == uuid_chars(u0) implies
        uuid_text_at(buf@, i as int, u0) by {
            lemma_uuid_chars_pieces(u0);
            lemma_uuid_groups_recompose(u0);
            let piece = buf@.subrange(i as int, i + 36);
            assert(buf@.subrange(i as int, i + 8) =~= piece.subrange(0, 8));
            assert(buf@.subrange(i + 9, i + 13) =~= piece.subrange(9, 13));
            assert(buf@.subrange(i + 14, i + 18) =~= piece.subrange(14, 18));
            assert(buf@.subrange(i + 19, i + 23) =~= piece.subrange(19, 23));
            assert(buf@.subrange(i + 24, i + 36) =~= piece.subrange(24, 36));
        }
    }
    parse_uuid_text_inner(buf, i)
}

/// The canonical text of `u0` stands at `i`, group by group.
spec fn uuid_text_at(buf: Seq<u8>, i: int, u0: Uuid) -> bool {
    let (g1, g2, g3, g4, g5) = uuid_groups(u0);
    &&& i + 36 <= buf.len()
    &&& buf.subrange(i, i + 8) == hex_digits(g1, 8)
    &&& buf[i + 8] == HYPHEN
    &&& buf.subrange(i + 9, i + 13) == hex_digits(g2, 4)
    &&& buf[i + 13] == HYPHEN
    &&& buf.subrange(i + 14, i + 18) == hex_digits(g3, 4)
    &&& buf[i + 18] == HYPHEN
    &&& buf.subrange(i + 19, i + 23) == hex_digits(g4, 4)
    &&& buf[i + 23] == HYPHEN
    &&& buf.subrange(i + 24, i + 36) == hex_digits(g5, 12)
    &&& u0.hi as int == g1 * 0x1_0000_0000 + g2 * 0x1_0000 + g3
    &&& u0.lo as int == g4 * 0x1_0000_0000_0000 + g5
    &&& 0 <= g1 < pow16(8) && 0 <= g2 < pow16(4) && 0 <= g3 < pow16(4) && 0 <= g4 < pow16(4) && 0
        <= g5 < pow16(12)
}


/// If the canonical text of some identifier stands at `i`, the digit
/// region starting at `off` holds only lowercase hexadecimal digits.
proof fn lemma_group_region_is_hex(buf: Seq<u8>, i: int, u0: Uuid, off: int, w: nat, g: int)
    requires
        uuid_text_at(buf, i, u0),
        0 <= off,
        off + w <= buf.len(),
        buf.subrange(off, off + w) == hex_digits(g, w),
    ensures
        forall|j: int| off <= j < off + w ==> hex_val_of(#[trigger] buf[j]) >= 0,
{
    lemma_hex_digits_are_hex(g, w);
    assert forall|j: int| off <= j < off + w implies hex_val_of(#[trigger] buf[j]) >= 0 by {
        assert(buf[j] == buf.subrange(off, off + w)[j - off]);
    }
}

/// The working half of the identifier parser.
fn parse_uuid_text_inner(buf: &Vec<u8>, i: usize) -> (r: Option<Uuid>)
    ensures
        r matches Some(u) ==> i + 36 <= buf@.len() && buf@.subrange(i as int, i + 36)
            == uuid_chars(u),
        forall|u0: Uuid| uuid_text_at(buf@, i as int, u0) ==> r == Some(u0),
{
    if buf.len() < 36 || i > buf.len() - 36 {
        return None;
    }
    let h1 = match parse_hex_run(buf, i, 8) {
        Some(v) => v,
        None => {
            proof {
                assert forall|u0: Uuid| !uuid_text_at(buf@, i as int, u0) by {
                    if uuid_text_at(buf@, i as int, u0) {
                        lemma_group_region_is_hex(
                            buf@,
                            i as int,
                            u0,
                            i as int,
                            8,
                            uuid_groups(u0).0,
                        );
                    }
                }
            }
            return None;
        },
    };
    if buf[i + 8] != HYPHEN {
        return None;
    }
    let h2 = match parse_hex_run(buf, i + 9, 4) {
        Some(v) => v,
        None => {
            proof {
                assert forall|u0: Uuid| !uuid_text_at(buf@, i as int, u0) by {
                    if uuid_text_at(buf@, i as int, u0) {
                        lemma_group_region_is_hex(
                            buf@,
                            i as int,
                            u0,
                            i + 9,
                            4,
                            uuid_groups(u0).1,
                        );
                    }
                }
            }
            return None;
        },
    };
    if buf[i + 13] != HYPHEN {
        return None;
    }
    let h3 = match parse_hex_run(buf, i + 14, 4) {
        Some(v) => v,
        None => {
            proof {
                assert forall|u0: Uuid| !uuid_text_at(buf@, i as int, u0) by {
                    if uuid_text_at(buf@, i as int, u0) {
                        lemma_group_region_is_hex(
                            buf@,
                            i as int,
                            u0,
                            i + 14,
                            4,
                            uuid_groups(u0).2,
                        );
                    }
                }
            }
            return None;
        },
    };
    if buf[i + 18] != HYPHEN {
        return None;
    }
    let l1 = match parse_hex_run(buf, i + 19, 4) {
        Some(v) => v,
        None => {
            proof {
                assert forall|u0: Uuid| !uuid_text_at(buf@, i as int, u0) by {
                    if uuid_text_at(buf@, i as int, u0) {
                        lemma_group_region_is_hex(
                            buf@,
                            i as int,
                            u0,
                            i + 19,
                            4,
                            uuid_groups(u0).3,
                        );
                    }
                }
            }
            return None;
        },
    };
    if buf[i + 23] != HYPHEN {
        return None;
    }
    let l2 = match parse_hex_run(buf, i + 24, 12) {
        Some(v) => v,
        None => {
            proof {
                assert forall|u0: Uuid| !uuid_text_at(buf@, i as int, u0) by {
                    if uuid_text_at(buf@, i as int, u0) {
                        lemma_group_region_is_hex(
                            buf@,
                            i as int,
                            u0,
                            i + 24,
                            12,
                            uuid_groups(u0).4,
                        );
                    }
                }
            }
            return None;
        },
    };
    proof {
        lemma_pow16_values();
    }
    let hi: u64 = h1 * 0x1_0000_0000 + h2 * 0x1_0000 + h3;
    let lo: u64 = l1 * 0x1_0000_0000_0000 + l2;
    let u = Uuid { hi, lo };
    proof {
        lemma_pow16_values();
        // the reconstructed halves split back into the parsed groups
        assert(hi as int / 0x1_0000_0000 == h1) by {
            lemma_fundamental_div_mod_converse_div(
                hi as int,
                0x1_0000_0000,
                h1 as int,
                h2 as int * 0x1_0000 + h3 as int,
            );
        }
        assert(hi as int / 0x1_0000 == h1 as int * 0x1_0000 + h2) by {
            lemma_fundamental_div_mod_converse_div(
                hi as int,
                0x1_0000,
                h1 as int * 0x1_0000 + h2 as int,
                h3 as int,
            );
        }
        assert((hi as int / 0x1_0000) % 0x1_0000 == h2) by {
            lemma_fundamental_div_mod_converse_mod(
                h1 as int * 0x1_0000 + h2 as int,
                0x1_0000,
                h1 as int,
                h2 as int,
            );
        }
        assert(hi as int % 0x1_0000 == h3) by {
            lemma_fundamental_div_mod_converse_mod(
                hi as int,
                0x1_0000,
                h1 as int * 0x1_0000 + h2 as int,
                h3 as int,
            );
        }
        assert(lo as int / 0x1_0000_0000_0000 == l1 && lo as int % 0x1_0000_0000_0000 == l2) by {
            lemma_fundamental_div_mod_converse_div(
                lo as int,
                0x1_0000_0000_0000,
                l1 as int,
                l2 as int,
            );
            lemma_fundamental_div_mod_converse_mod(
                lo as int,
                0x1_0000_0000_0000,
                l1 as int,
                l2 as int,
            );
        }
        assert(buf@.subrange(i as int, i + 36) =~= buf@.subrange(i as int, i + 8) + seq![HYPHEN]
            + buf@.subrange(i + 9, i + 13) + seq![HYPHEN] + buf@.subrange(i + 14, i + 18)
            + seq![HYPHEN] + buf@.subrange(i + 19, i + 23) + seq![HYPHEN] + buf@.subrange(
            i + 24,
            i + 36,
        ));
        assert forall|u0: Uuid| uuid_text_at(buf@, i as int, u0) implies u0 == u by {
            let (g1, g2, g3, g4, g5) = uuid_groups(u0);
            lemma_hex_digits_injective(h1 as int, g1, 8);
            lemma_hex_digits_injective(h2 as int, g2, 4);
            lemma_hex_digits_injective(h3 as int, g3, 4);
            lemma_hex_digits_injective(l1 as int, g4, 4);
            lemma_hex_digits_injective(l2 as int, g5, 12);
            assert(u0.hi == hi && u0.lo == lo);
        }
    }
    Some(u)
}

/// Every byte of a canonical digit run is a lowercase hexadecimal digit.
pub proof fn lemma_hex_digits_are_hex(x: int, k: nat)
    ensures
        forall|j: int| 0 <= j < k ==> hex_val_of(#[trigger] hex_digits(x, k)[j]) >= 0,
        hex_digits(x, k).len() == k,
    decreases k,
{
    if k > 0 {
        lemma_hex_digits_are_hex(x / 16, (k - 1) as nat);
        vstd::arithmetic::div_mod::lemma_mod_division_less_than_divisor(x, 16);
        assert forall|j: int| 0 <= j < k implies hex_val_of(#[trigger] hex_digits(x, k)[j])
            >= 0 by {
            if j < k - 1 {
                assert(hex_digits(x, k)[j] == hex_digits(x / 16, (k - 1) as nat)[j]);
            } else {
                assert(hex_digits(x, k)[j] == hex_char_of(x % 16));
            }
        }
    }
}

/// Fixed-width canonical digit runs are unambiguous.
pub proof fn lemma_hex_digits_injective(a: int, b: int, k: nat)
    requires
        0 <= a < pow16(k),
        0 <= b < pow16(k),
        hex_digits(a, k) == hex_digits(b, k),
    ensures
        a == b,
    decreases k,
{
    if k == 0 {
        lemma_pow16_pos(k);
    } else {
        let ka = (k - 1) as nat;
        assert(hex_digits(a, k).last() == hex_char_of(a % 16));
        assert(hex_digits(b, k).last() == hex_char_of(b % 16));
        lemma_fundamental_div_mod(a, 16);
        lemma_fundamental_div_mod(b, 16);
        assert(a % 16 == b % 16);
        assert(hex_digits(a, k).drop_last() =~= hex_digits(a / 16, ka));
        assert(hex_digits(b, k).drop_last() =~= hex_digits(b / 16, ka));
        assert(a / 16 < pow16(ka) && b / 16 < pow16(ka)) by {
            assert(pow16(k) == 16 * pow16(ka));
            vstd::arithmetic::div_mod::lemma_multiply_divide_lt(a, 16, pow16(ka));
            vstd::arithmetic::div_mod::lemma_multiply_divide_lt(b, 16, pow16(ka));
        }
        lemma_hex_digits_injective(a / 16, b / 16, ka);
    }
}

} // verus!
