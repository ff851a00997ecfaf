//! Instance identities, their short prefix, and the directory name built
//! from them.
use vstd::prelude::*;
use vstd::string::*;

verus! {

/// An instance identity: a 128-bit unique token.
pub type InstanceUuid = u128;

/// The short prefix of an identity: its leading 32 bits, which its first
/// eight hex digits spell.
pub open spec fn prefix_of(id: InstanceUuid) -> u32 {
    (id >> 96u128) as u32
}

pub fn short_prefix(id: InstanceUuid) -> (r: u32)
    ensures
        r == prefix_of(id),
{
    (id >> 96u128) as u32
}

pub open spec fn hex_chars() -> Seq<char> {
    seq!['0', '1', '2', '3', '4', '5', '6', '7', '8', '9', 'a', 'b', 'c', 'd', 'e', 'f']
}

pub open spec fn pow16(n: nat) -> int
    decreases n,
{
    if n == 0 {
        1
    } else {
        16 * pow16((n - 1) as nat)
    }
}

proof fn lemma_pow16_pos(n: nat)
    ensures
        pow16(n) >= 1,
    decreases n,
{
    if n > 0 {
        lemma_pow16_pos((n - 1) as nat);
    }
}

proof fn lemma_pow16_values()
    ensures
        pow16(7) == 268435456,
        pow16(8) == 4294967296,
{
    assert(pow16(0) == 1);
    assert(pow16(1) == 16);
    assert(pow16(2) == 256);
    assert(pow16(3) == 4096);
    assert(pow16(4) == 65536);
    assert(pow16(5) == 1048576);
    assert(pow16(6) == 16777216);
    assert(pow16(7) == 268435456);
    assert(pow16(8) == 4294967296);
}

/// The last `w` hex digits of `x`, most significant first, in lower case.
pub open spec fn hex_digits(x: nat, w: nat) -> Seq<char>
    decreases w,
{
    if w == 0 {
        Seq::empty()
    } else {
        hex_digits(x / 16, (w - 1) as nat).push(hex_chars()[(x % 16) as int])
    }
}

/// The name of an instance's directory: its name, a dash, and the eight hex
/// digits of its short prefix.
pub open spec fn dir_name_of(name: Seq<char>, id: InstanceUuid) -> Seq<char> {
    name + seq!['-'] + hex_digits(prefix_of(id) as nat, 8)
}

pub fn instance_dir_name(name: &str, id: InstanceUuid) -> (r: String)
    ensures
        r@ == dir_name_of(name@, id),
{
    let p = short_prefix(id);
    let mut out = name.to_owned();
    out.append("-");
    proof {
        reveal_strlit("-");
        reveal_strlit("0123456789abcdef");
        assert("0123456789abcdef"@ =~= hex_chars());
        lemma_pow16_values();
    }
    let ghost base = out@;
    assert(base =~= name@ + seq!['-']);
    let mut div: u32 = 268435456;
    let mut k: usize = 0;
    while k < 8
        invariant
            k <= 8,
            k < 8 ==> div as int == pow16((7 - k) as nat),
            out@ == base + hex_digits((p as int / pow16((8 - k) as nat)) as nat, k as nat),
            "0123456789abcdef"@ == hex_chars(),
        decreases 8 - k,
    {
        proof {
            lemma_pow16_pos((7 - k) as nat);
            lemma_pow16_pos((6 - k) as nat);
        }
        let q = p / div;
        let d = (q % 16) as usize;
        out.append("0123456789abcdef".substring_char(d, d + 1));
        proof {
            let pk = pow16((7 - k) as nat);
            assert(pow16((8 - k) as nat) == 16 * pk);
            vstd::arithmetic::div_mod::lemma_div_denominator(p as int, pk, 16);
            assert(pk * 16 == 16 * pk) by (nonlinear_arith);
            assert(hex_chars().subrange(d as int, d + 1) =~= seq![hex_chars()[d as int]]);
            let x = (p as int / pk) as nat;
            assert(hex_digits(x, (k + 1) as nat) == hex_digits(x / 16, k as nat).push(hex_chars()[(x % 16) as int]));
        }
        if k < 7 {
            proof {
                let a = pow16((6 - k) as nat);
                assert((16 * a) / 16 == a) by (nonlinear_arith);
            }
            div = div / 16;
        }
        k = k + 1;
    }
    out
}

} // verus!
