//! Standard base64 (RFC 4648): the alphabet with `+` and `/`, padded with `=`.
use vstd::prelude::*;

verus! {

/// The character for a six-bit value.
pub open spec fn sextet_char(n: nat) -> char {
    if n < 26 {
        (65 + n) as char
    } else if n < 52 {
        (71 + n) as char
    } else if n < 62 {
        (n - 4) as char
    } else if n == 62 {
        '+'
    } else {
        '/'
    }
}

/// The number made of three bytes.
pub open spec fn triple(b0: u8, b1: u8, b2: u8) -> nat {
    (b0 * 65536 + b1 * 256 + b2) as nat
}

/// The four characters of one group of up to three bytes.
#[verifier::opaque]
pub open spec fn group_text(group: Seq<u8>) -> Seq<char> {
    let b1 = if group.len() > 1 {
        group[1]
    } else {
        0
    };
    let b2 = if group.len() > 2 {
        group[2]
    } else {
        0
    };
    let n = triple(group[0], b1, b2);
    seq![
        sextet_char(n / 262144),
        sextet_char((n / 4096) % 64),
        if group.len() > 1 {
            sextet_char((n / 64) % 64)
        } else {
            '='
        },
        if group.len() > 2 {
            sextet_char(n % 64)
        } else {
            '='
        },
    ]
}

/// The encoding of `input`: groups of three bytes, the last one perhaps
/// shorter.
pub open spec fn base64(input: Seq<u8>) -> Seq<char>
    decreases input.len(),
{
    if input.len() == 0 {
        Seq::empty()
    } else if input.len() <= 3 {
        group_text(input)
    } else {
        group_text(input.take(3)) + base64(input.skip(3))
    }
}

fn sextet(n: u32) -> (r: char)
    requires
        n < 64,
    ensures
        r == sextet_char(n as nat),
{
    if n < 26 {
        (65 + n as u8) as char
    } else if n < 52 {
        (71 + n as u8) as char
    } else if n < 62 {
        (n as u8 - 4) as char
    } else if n == 62 {
        '+'
    } else {
        '/'
    }
}

/// Encode bytes as base64.
pub fn base64_encode(input: &[u8]) -> (r: String)
    ensures
        r@ == base64(input@),
{
    let mut out = String::new();
    let mut i: usize = 0;
    assert(input@.skip(0) =~= input@);
    assert(out@ + base64(input@) =~= base64(input@));
    while i < input.len()
        invariant
            i <= input@.len(),
            out@ + base64(input@.skip(i as int)) == base64(input@),
        decreases input@.len() - i,
    {
        let left: usize = input.len() - i;
        let ghost rest = input@.skip(i as int);
        let ghost before = out@;
        let b0 = input[i] as u32;
        let b1: u32 = if left > 1 {
            input[i + 1] as u32
        } else {
            0
        };
        let b2: u32 = if left > 2 {
            input[i + 2] as u32
        } else {
            0
        };
        let n: u32 = b0 * 65536 + b1 * 256 + b2;
        out.push(sextet(n / 262144));
        out.push(sextet((n / 4096) % 64));
        if left > 1 {
            out.push(sextet((n / 64) % 64));
        } else {
            out.push('=');
        }
        if left > 2 {
            out.push(sextet(n % 64));
        } else {
            out.push('=');
        }
        let step: usize = if left > 3 {
            3
        } else {
            left
        };
        proof {
            let group = if left > 3 {
                rest.take(3)
            } else {
                rest
            };
            assert(group[0] == input@[i as int]);
            assert(left > 1 ==> group[1] == input@[i + 1]);
            assert(left > 2 ==> group[2] == input@[i + 2]);
            assert(n == triple(
                group[0],
                if group.len() > 1 { group[1] } else { 0 },
                if group.len() > 2 { group[2] } else { 0 },
            ));
            assert(out@ =~= before + group_text(group)) by {
                reveal(group_text);
            }
            assert(input@.skip(i + step) =~= rest.skip(step as int));
            if left > 3 {
                assert(out@ + base64(rest.skip(3)) =~= before + (group_text(group) + base64(
                    rest.skip(3),
                )));
            } else {
                assert(rest.skip(step as int) =~= Seq::<u8>::empty());
                assert(out@ + base64(rest.skip(step as int)) =~= before + group_text(group));
            }
        }
        i += step;
    }
    assert(out@ + base64(input@.skip(i as int)) =~= out@);
    out
}

// ── decoding, as a specification ────────────────────────────────────────

/// The six-bit value of a character of the alphabet.
pub open spec fn sextet_value(c: char) -> nat {
    let v = c as int;
    if 65 <= v <= 90 {
        (v - 65) as nat
    } else if 97 <= v <= 122 {
        (v - 71) as nat
    } else if 48 <= v <= 57 {
        (v + 4) as nat
    } else if c == '+' {
        62
    } else {
        63
    }
}

/// The bytes behind four characters.
#[verifier::opaque]
pub open spec fn group_bytes(s: Seq<char>) -> Seq<u8> {
    let n = sextet_value(s[0]) * 262144 + sextet_value(s[1]) * 4096 + (if s[2] == '=' {
        0
    } else {
        sextet_value(s[2]) * 64
    }) + (if s[3] == '=' {
        0
    } else {
        sextet_value(s[3])
    });
    let bytes = seq![(n / 65536) as u8, ((n / 256) % 256) as u8, (n % 256) as u8];
    if s[2] == '=' {
        bytes.take(1)
    } else if s[3] == '=' {
        bytes.take(2)
    } else {
        bytes
    }
}

/// The bytes behind an encoding.
pub open spec fn base64_bytes(s: Seq<char>) -> Seq<u8>
    decreases s.len(),
{
    if s.len() < 4 {
        Seq::empty()
    } else {
        group_bytes(s.take(4)) + base64_bytes(s.skip(4))
    }
}

proof fn lemma_sextet_round_trip(n: nat)
    requires
        n < 64,
    ensures
        sextet_value(sextet_char(n)) == n,
        sextet_char(n) != '=',
{
}

proof fn lemma_sextets_of(n: nat)
    requires
        n < 16777216,
    ensures
        n / 262144 < 64,
        n == (n / 262144) * 262144 + ((n / 4096) % 64) * 4096 + ((n / 64) % 64) * 64 + n % 64,
{
}

proof fn lemma_bytes_of(a: nat, b: nat, c: nat)
    requires
        a < 256,
        b < 256,
        c < 256,
    ensures
        (a * 65536 + b * 256 + c) / 65536 == a,
        ((a * 65536 + b * 256 + c) / 256) % 256 == b,
        (a * 65536 + b * 256 + c) % 256 == c,
{
}

proof fn lemma_group_round_trip(group: Seq<u8>)
    requires
        1 <= group.len() <= 3,
    ensures
        group_text(group).len() == 4,
        group_bytes(group_text(group)) == group,
{
    reveal(group_text);
    reveal(group_bytes);
    let b0 = group[0];
    let b1: u8 = if group.len() > 1 {
        group[1]
    } else {
        0
    };
    let b2: u8 = if group.len() > 2 {
        group[2]
    } else {
        0
    };
    let n = triple(b0, b1, b2);
    lemma_sextets_of(n);
    lemma_bytes_of(b0 as nat, b1 as nat, b2 as nat);
    lemma_sextet_round_trip(n / 262144);
    lemma_sextet_round_trip((n / 4096) % 64);
    lemma_sextet_round_trip((n / 64) % 64);
    lemma_sextet_round_trip(n % 64);
    let t = group_text(group);
    if group.len() == 1 {
        assert((n / 64) % 64 == 0 && n % 64 == 0) by {
            assert(n == b0 as nat * 65536);
        }
    } else if group.len() == 2 {
        assert(n % 64 == 0) by {
            assert(n == b0 as nat * 65536 + b1 as nat * 256);
        }
    }
    assert(group_bytes(t) =~= group);
}

/// Nothing is lost: from the encoding the bytes can be read back.
pub proof fn law_base64_round_trip(input: Seq<u8>)
    ensures
        base64_bytes(base64(input)) == input,
        base64(input).len() == 4 * ((input.len() + 2) / 3),
    decreases input.len(),
{
    if input.len() == 0 {
        assert(base64_bytes(base64(input)) =~= input);
    } else if input.len() <= 3 {
        lemma_group_round_trip(input);
        let t = base64(input);
        assert(t.take(4) =~= t);
        assert(base64_bytes(t.skip(4)) =~= Seq::<u8>::empty());
        assert(base64_bytes(t) == group_bytes(t.take(4)) + base64_bytes(t.skip(4)));
        assert(base64_bytes(t) =~= input);
    } else {
        lemma_group_round_trip(input.take(3));
        law_base64_round_trip(input.skip(3));
        let g = group_text(input.take(3));
        let t = base64(input);
        assert(t.take(4) =~= g);
        assert(t.skip(4) =~= base64(input.skip(3)));
        assert(input.take(3) + input.skip(3) =~= input);
    }
}

} // verus!
