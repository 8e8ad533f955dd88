//! ANSI escape sequences in byte streams.
use vstd::prelude::*;

verus! {

/// Whether byte `c` ends a CSI sequence (an ASCII letter, `@` or a backquote).
pub open spec fn is_csi_final_byte(c: u8) -> bool {
    (0x61u8 <= c && c <= 0x7au8) || (0x41u8 <= c && c <= 0x5au8) || c == 0x40u8 || c == 0x60u8
}

/// Length of a CSI body: up to and including its final character (all of `s` if none).
pub open spec fn csi_len_bytes(s: Seq<u8>) -> nat
    decreases s.len(),
{
    if s.len() == 0 {
        0
    } else if is_csi_final_byte(s[0]) {
        1
    } else {
        1 + csi_len_bytes(s.skip(1))
    }
}

/// Length of an OSC body: up to and including BEL, or ESC (with a following
/// backslash); all of `s` if neither occurs.
pub open spec fn osc_len_bytes(s: Seq<u8>) -> nat
    decreases s.len(),
{
    if s.len() == 0 {
        0
    } else if s[0] == 0x07u8 {
        1
    } else if s[0] == 0x1bu8 {
        if s.len() >= 2 && s[1] == 0x5cu8 { 2 } else { 1 }
    } else {
        1 + osc_len_bytes(s.skip(1))
    }
}

/// Bounds of the escape body lengths.
pub proof fn lemma_escape_lens_bytes(s: Seq<u8>)
    ensures
        csi_len_bytes(s) <= s.len(),
        osc_len_bytes(s) <= s.len(),
    decreases s.len(),
{
    if s.len() > 0 {
        lemma_escape_lens_bytes(s.skip(1));
    }
}

/// `s` with ANSI escape sequences removed: CSI (`ESC [` ... final), OSC
/// (`ESC ]` ... BEL or ST), character-set designations (`ESC (` and the next
/// character), and two-character escapes (`ESC` then an uppercase letter,
/// `=` or `>`); any other `ESC` is dropped alone.
pub open spec fn strip_ansi_bytes_spec(s: Seq<u8>) -> Seq<u8>
    decreases s.len(),
{
    if s.len() == 0 {
        Seq::empty()
    } else if s[0] != 0x1bu8 {
        seq![s[0]] + strip_ansi_bytes_spec(s.skip(1))
    } else if s.len() == 1 {
        Seq::empty()
    } else {
        let n = s[1];
        proof {
            lemma_escape_lens_bytes(s.skip(2));
        }
        if n == 0x5bu8 {
            strip_ansi_bytes_spec(s.skip(2 + csi_len_bytes(s.skip(2)) as int))
        } else if n == 0x5du8 {
            strip_ansi_bytes_spec(s.skip(2 + osc_len_bytes(s.skip(2)) as int))
        } else if n == 0x28u8 || n == 0x29u8 || n == 0x2au8 || n == 0x2bu8 {
            strip_ansi_bytes_spec(s.skip(if s.len() >= 3 { 3 } else { 2 }))
        } else if (0x41u8 <= n && n <= 0x5au8) || n == 0x3du8 || n == 0x3eu8 {
            strip_ansi_bytes_spec(s.skip(2))
        } else {
            strip_ansi_bytes_spec(s.skip(1))
        }
    }
}

/// End of the CSI body starting at `i`.
fn csi_end_bytes(cs: &[u8], i: usize) -> (r: usize)
    requires
        i <= cs.len(),
    ensures
        r == i + csi_len_bytes(cs@.skip(i as int)),
    decreases cs.len() - i,
{
    if i >= cs.len() {
        proof {
            assert(cs@.skip(i as int).len() == 0);
        }
        i
    } else {
        let c = cs[i];
        proof {
            assert(cs@.skip(i as int)[0] == c);
            assert(cs@.skip(i as int).skip(1) =~= cs@.skip(i + 1));
        }
        if (0x61u8 <= c && c <= 0x7au8) || (0x41u8 <= c && c <= 0x5au8) || c == 0x40u8 || c == 0x60u8 {
            i + 1
        } else {
            csi_end_bytes(cs, i + 1)
        }
    }
}

/// End of the OSC body starting at `i`.
fn osc_end_bytes(cs: &[u8], i: usize) -> (r: usize)
    requires
        i <= cs.len(),
    ensures
        r == i + osc_len_bytes(cs@.skip(i as int)),
    decreases cs.len() - i,
{
    if i >= cs.len() {
        proof {
            assert(cs@.skip(i as int).len() == 0);
        }
        i
    } else {
        let c = cs[i];
        proof {
            assert(cs@.skip(i as int)[0] == c);
            assert(cs@.skip(i as int).skip(1) =~= cs@.skip(i + 1));
        }
        if c == 0x07u8 {
            i + 1
        } else if c == 0x1bu8 {
            if i + 1 < cs.len() && cs[i + 1] == 0x5cu8 {
                assert(cs@.skip(i as int)[1] == cs@[i + 1]);
                i + 2
            } else {
                i + 1
            }
        } else {
            osc_end_bytes(cs, i + 1)
        }
    }
}

/// Strip ANSI escape sequences from bytes (the grammar of
/// [`crate::encoding::strip_ansi`], over bytes).
pub fn strip_ansi_bytes(s: &[u8]) -> (r: Vec<u8>)
    ensures
        r@ == strip_ansi_bytes_spec(s@),
{
    let mut result: Vec<u8> = Vec::new();
    let mut i: usize = 0;
    proof {
        assert(s@.skip(0) =~= s@);
    }
    while i < s.len()
        invariant
            i <= s.len(),
            strip_ansi_bytes_spec(s@) == result@ + strip_ansi_bytes_spec(s@.skip(i as int)),
        decreases s.len() - i,
    {
        let ghost rest = s@.skip(i as int);
        let ghost before = result@;
        let c = s[i];
        proof {
            assert(rest[0] == c);
        }
        if c != 0x1bu8 {
            result.push(c);
            proof {
                assert(rest.skip(1) =~= s@.skip(i + 1));
                assert(before + (seq![c] + strip_ansi_bytes_spec(rest.skip(1))) =~= result@ + strip_ansi_bytes_spec(s@.skip(i + 1)));
            }
            i = i + 1;
        } else if i + 1 >= s.len() {
            proof {
                assert(rest.len() == 1);
                assert(s@.skip(i + 1).len() == 0);
                assert(before + Seq::<u8>::empty() =~= result@ + strip_ansi_bytes_spec(s@.skip(i + 1)));
            }
            i = i + 1;
        } else {
            let n = s[i + 1];
            proof {
                assert(rest[1] == n);
                lemma_escape_lens_bytes(rest.skip(2));
                assert(rest.skip(2) =~= s@.skip(i + 2));
            }
            let next: usize = if n == 0x5bu8 {
                csi_end_bytes(s, i + 2)
            } else if n == 0x5du8 {
                osc_end_bytes(s, i + 2)
            } else if n == 0x28u8 || n == 0x29u8 || n == 0x2au8 || n == 0x2bu8 {
                if i + 2 < s.len() { i + 3 } else { i + 2 }
            } else if (0x41u8 <= n && n <= 0x5au8) || n == 0x3du8 || n == 0x3eu8 {
                i + 2
            } else {
                i + 1
            };
            proof {
                assert(i < next <= s.len());
                assert(rest.skip(next - i) =~= s@.skip(next as int));
                assert(strip_ansi_bytes_spec(rest) == strip_ansi_bytes_spec(rest.skip(next - i)));
            }
            i = next;
        }
    }
    proof {
        assert(s@.skip(i as int).len() == 0);
        assert(result@ + Seq::<u8>::empty() =~= result@);
    }
    result
}

} // verus!
