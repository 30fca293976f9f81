//! What holds of identifiers and ports: that they are told apart, and that all are tried.
use vstd::arithmetic::power::pow;
use vstd::prelude::*;
use crate::config::CfgAsterisk;
use crate::ident;
use crate::media;
use crate::model;
use crate::model::EntityModel;
use crate::request;
use crate::text;
use crate::text::Text;

verus! {

// ---------------------------------------------------------------------------------------------
// Branches

/// Different transactions have different branches.
pub proof fn law_branches_differ(a: u64, b: u64)
    ensures
        request::branch(a) == request::branch(b) <==> a == b,
{
    if request::branch(a) == request::branch(b) {
        let p = "z9hG4bKflow"@;
        let x = request::padded_hex(a);
        let y = request::padded_hex(b);
        assert((p + x).skip(p.len() as int) =~= x);
        assert((p + y).skip(p.len() as int) =~= y);
        lemma_padded_value(a);
        lemma_padded_value(b);
    }
}

/// A branch is used for one transaction: the next one is different.
pub proof fn law_next_branch_is_fresh(s: EntityModel)
    ensures
        s.branch_used().fresh_branch() != s.fresh_branch(),
{
    law_branches_differ(s.branch_counter, s.branch_used().branch_counter);
}

/// The value of a hexadecimal digit.
spec fn hex_digit(c: char) -> int {
    if c <= '9' {
        c as u32 - '0' as u32
    } else {
        c as u32 - 'a' as u32 + 10
    }
}

/// The value of a hexadecimal number.
spec fn hex_value(s: Text) -> int
    decreases s.len(),
{
    if s.len() == 0 {
        0
    } else {
        hex_value(s.drop_last()) * 16 + hex_digit(s.last())
    }
}

proof fn lemma_digit(n: nat)
    requires
        n < 16,
    ensures
        hex_digit(text::digit_char(n)) == n,
        text::lower_char(text::digit_char(n)) == text::digit_char(n),
{
}

proof fn lemma_numeral_value(n: nat)
    ensures
        hex_value(text::numeral(n, 16)) == n,
    decreases n,
{
    let s = text::numeral(n, 16);
    lemma_digit(n % 16);
    if n < 16 {
        assert(s.drop_last() =~= Seq::empty());
        assert(hex_value(s.drop_last()) == 0);
    } else {
        lemma_numeral_value(n / 16);
        assert(s.drop_last() =~= text::numeral(n / 16, 16));
    }
}

proof fn lemma_zeros_value(k: nat, s: Text)
    ensures
        hex_value(Seq::new(k, |i: int| '0') + s) == hex_value(s),
    decreases k + s.len(),
{
    let zeros = Seq::new(k, |i: int| '0');
    let t = zeros + s;
    if s.len() > 0 {
        lemma_zeros_value(k, s.drop_last());
        assert(t.drop_last() =~= zeros + s.drop_last());
        assert(t.last() == s.last());
    } else if k > 0 {
        let fewer = Seq::new((k - 1) as nat, |i: int| '0');
        lemma_zeros_value((k - 1) as nat, s);
        assert(t.drop_last() =~= fewer + s);
        assert(t.last() == '0');
    } else {
        assert(t =~= s);
    }
}

proof fn lemma_padded_value(n: u64)
    ensures
        hex_value(request::padded_hex(n)) == n,
{
    let h = text::numeral(n as nat, 16);
    lemma_numeral_value(n as nat);
    if h.len() < 8 {
        lemma_zeros_value((8 - h.len()) as nat, h);
    }
}

// ---------------------------------------------------------------------------------------------
// UUIDs and Call-IDs

/// Different UUIDs are written differently.
pub proof fn law_uuids_differ(a: u128, b: u128)
    ensures
        ident::uuid_text(a) == ident::uuid_text(b) <==> a == b,
{
    reveal(ident::uuid_text);
    if ident::uuid_text(a) == ident::uuid_text(b) {
        reveal_strlit("-");
        let x = ident::hex_octets(ident::uuid_octets(a));
        let y = ident::hex_octets(ident::uuid_octets(b));
        lemma_uuid_digits(a);
        lemma_uuid_digits(b);
        assert(x =~= y);
        assert forall|i: int| 0 <= i < 16 implies ident::uuid_octets(a)[i] == ident::uuid_octets(
            b,
        )[i] by {
            lemma_octet_digits(ident::uuid_octets(a), i);
            lemma_octet_digits(ident::uuid_octets(b), i);
        }
        lemma_octets_differ(a, b, 0);
        reveal_with_fuel(pow, 1);
    }
}

/// The digits of a UUID, from its written form.
proof fn lemma_uuid_digits(id: u128)
    ensures
        ident::hex_octets(ident::uuid_octets(id)) == ident::uuid_text(id).subrange(0, 8)
            + ident::uuid_text(id).subrange(9, 13) + ident::uuid_text(id).subrange(14, 18)
            + ident::uuid_text(id).subrange(19, 23) + ident::uuid_text(id).subrange(24, 36),
{
    reveal(ident::uuid_text);
    reveal_strlit("-");
    let h = ident::hex_octets(ident::uuid_octets(id));
    let t = ident::uuid_text(id);
    assert(t.len() == 36);
    assert(h =~= t.subrange(0, 8) + t.subrange(9, 13) + t.subrange(14, 18) + t.subrange(19, 23)
        + t.subrange(24, 36));
}

/// An octet, from its two digits.
proof fn lemma_octet_digits(octets: Seq<u8>, i: int)
    requires
        0 <= i < octets.len(),
    ensures
        octets[i] == hex_digit(ident::hex_octets(octets)[2 * i]) * 16 + hex_digit(
            ident::hex_octets(octets)[2 * i + 1],
        ),
{
    let o = octets[i] as nat;
    lemma_digit(o / 16);
    lemma_digit(o % 16);
    assert(2 * i / 2 == i);
    assert((2 * i + 1) / 2 == i);
}

/// Two numbers with the same octets agree from the `k`th octet on.
proof fn lemma_octets_differ(a: u128, b: u128, k: nat)
    requires
        k <= 16,
        forall|i: int|
            0 <= i < 16 ==> #[trigger] ident::uuid_octets(a)[i] == ident::uuid_octets(b)[i],
    ensures
        a as int / pow(256, k) == b as int / pow(256, k),
    decreases 16 - k,
{
    vstd::arithmetic::power::lemma_pow_positive(256, k);
    if k == 16 {
        assert(pow(256, 16) == 0x1_00000000_00000000_00000000_00000000) by {
            reveal_with_fuel(pow, 17);
        }
        vstd::arithmetic::div_mod::lemma_basic_div(a as int, pow(256, 16));
        vstd::arithmetic::div_mod::lemma_basic_div(b as int, pow(256, 16));
    } else {
        lemma_octets_differ(a, b, k + 1);
        assert(pow(256, k + 1) == pow(256, k) * 256) by {
            reveal_with_fuel(pow, 2);
            vstd::arithmetic::mul::lemma_mul_is_commutative(256, pow(256, k));
        }
        vstd::arithmetic::div_mod::lemma_div_denominator(a as int, pow(256, k), 256);
        vstd::arithmetic::div_mod::lemma_div_denominator(b as int, pow(256, k), 256);
        let i = 15 - k;
        assert(ident::uuid_octets(a)[i] == ident::uuid_octets(b)[i]);
        let x = a as int / pow(256, k);
        let y = b as int / pow(256, k);
        assert(x >= 0 && y >= 0) by {
            vstd::arithmetic::div_mod::lemma_div_pos_is_pos(a as int, pow(256, k));
            vstd::arithmetic::div_mod::lemma_div_pos_is_pos(b as int, pow(256, k));
        }
        assert((15 - i) as nat == k);
        assert(x % 256 == y % 256);
        assert(x / 256 == y / 256);
    }
}

/// A UUID is written in lower case.
proof fn lemma_uuid_lower(id: u128)
    ensures
        text::lower(ident::uuid_text(id)) == ident::uuid_text(id),
{
    reveal(ident::uuid_text);
    reveal_strlit("-");
    let octets = ident::uuid_octets(id);
    let h = ident::hex_octets(octets);
    let t = ident::uuid_text(id);
    assert forall|i: int| 0 <= i < 32 implies text::lower_char(#[trigger] h[i]) == h[i] by {
        let o = octets[i / 2] as nat;
        lemma_digit(o / 16);
        lemma_digit(o % 16);
    }
    assert forall|i: int| 0 <= i < 36 implies text::lower_char(#[trigger] t[i]) == t[i] by {
        if i < 8 {
            assert(t[i] == h[i]);
        } else if i == 8 {
        } else if i < 13 {
            assert(t[i] == h[i - 1]);
        } else if i == 13 {
        } else if i < 18 {
            assert(t[i] == h[i - 2]);
        } else if i == 18 {
        } else if i < 23 {
            assert(t[i] == h[i - 3]);
        } else if i == 23 {
        } else {
            assert(t[i] == h[i - 4]);
        }
    }
    assert(text::lower(t) =~= t);
}

/// Calls from radios are told apart by their Call-IDs, in whatever case these are written.
pub proof fn law_call_ids_differ(cfg: CfgAsterisk, a: u128, b: u128)
    ensures
        text::same_ignoring_case(
            model::outbound_call_id(cfg, a),
            model::outbound_call_id(cfg, b),
        ) <==> a == b,
{
    reveal(ident::uuid_text);
    let x = model::outbound_call_id(cfg, a);
    let y = model::outbound_call_id(cfg, b);
    if text::same_ignoring_case(x, y) {
        reveal_strlit("flow-");
        reveal_strlit("-");
        lemma_uuid_lower(a);
        lemma_uuid_lower(b);
        let u = ident::uuid_text(a);
        let v = ident::uuid_text(b);
        assert(u.len() == 36 && v.len() == 36);
        assert forall|i: int| 0 <= i < 36 implies u[i] == v[i] by {
            assert(x[i + 5] == u[i]);
            assert(y[i + 5] == v[i]);
            assert(text::lower(x)[i + 5] == text::lower(y)[i + 5]);
            assert(text::lower(u)[i] == u[i]);
            assert(text::lower(v)[i] == v[i]);
        }
        assert(u =~= v);
        law_uuids_differ(a, b);
    }
}

// ---------------------------------------------------------------------------------------------
// RTP ports

/// Only ports of the range are tried.
pub proof fn law_ports_stay_in_range(next: u16, min: u16, max: u16, k: nat)
    requires
        min <= max,
    ensures
        min <= media::candidate(next, min, max, k) <= max,
    decreases k,
{
    if k > 0 {
        law_ports_stay_in_range(next, min, max, (k - 1) as nat);
    }
}

/// Every port of the range is tried, each once, wherever the search begins. Where the range ends
/// at the greatest port that there is, the search does not wrap, so it has to begin at the least
/// port of a range that leaves out port zero.
pub proof fn law_every_port_is_tried(next: u16, min: u16, max: u16, port: u16)
    requires
        min <= port <= max,
        max < u16::MAX || (next <= min && min > 0),
    ensures
        exists|k: nat|
            k < media::attempts(min, max) && #[trigger] media::candidate(next, min, max, k) == port,
        forall|j: nat, k: nat|
            j < k < media::attempts(min, max) ==> #[trigger] media::candidate(next, min, max, j)
                != #[trigger] media::candidate(next, min, max, k),
{
    let first = media::candidate(next, min, max, 0);
    law_ports_stay_in_range(next, min, max, 0);
    let n = media::attempts(min, max);
    assert(n == max - min + 1);
    let at = if port >= first {
        (port - first) as nat
    } else {
        (max - first + 1 + (port - min)) as nat
    };
    lemma_candidate(next, min, max, at);
    assert(media::candidate(next, min, max, at) == port);
    assert forall|j: nat, k: nat| j < k < n implies #[trigger] media::candidate(next, min, max, j)
        != #[trigger] media::candidate(next, min, max, k) by {
        lemma_candidate(next, min, max, j);
        lemma_candidate(next, min, max, k);
    }
}

/// The ports are tried upwards from the first, and then from the least.
proof fn lemma_candidate(next: u16, min: u16, max: u16, k: nat)
    requires
        min <= max,
        max < u16::MAX || (next <= min && min > 0),
        k < media::attempts(min, max),
    ensures
        ({
            let first = media::candidate(next, min, max, 0);
            media::candidate(next, min, max, k) == if first + k <= max {
                first + k
            } else {
                min + (k - (max - first + 1))
            }
        }),
    decreases k,
{
    law_ports_stay_in_range(next, min, max, 0);
    if k > 0 {
        lemma_candidate(next, min, max, (k - 1) as nat);
    }
}

/// The port that has just been taken is not the first to be tried next, unless there is no other.
pub proof fn law_next_port_moves_on(port: u16, min: u16, max: u16)
    requires
        min <= port <= max,
        min < max,
    ensures
        media::candidate(media::port_after(port, min, max), min, max, 0) != port,
{
}

} // verus!
