//! Icon conversion: remote pixel buffers arrive as 32-bit samples in byte
//! order A,R,G,B (row-major, no padding); the native host wants the bytes of
//! each sample in the opposite order, B,G,R,A. The reorder is a per-sample
//! byte reversal, so it is its own inverse.

use vstd::prelude::*;

verus! {

/// The byte at position `i` of the reordered buffer comes from the byte of
/// the same 4-byte sample at the mirrored offset.
pub open spec fn reordered(s: Seq<u8>) -> Seq<u8> {
    Seq::new(s.len(), |i: int| s[4 * (i / 4) + (3 - i % 4)])
}

/// Reversing the bytes of every 4-byte sample twice gives the bytes back.
pub proof fn lemma_reorder_involution(s: Seq<u8>)
    requires
        s.len() % 4 == 0,
    ensures
        reordered(reordered(s)) == s,
{
    let r = reordered(reordered(s));
    assert forall|i: int| 0 <= i < s.len() implies r[i] == s[i] by {
        let j = 4 * (i / 4) + (3 - i % 4);
        assert(j / 4 == i / 4 && j % 4 == 3 - i % 4) by (nonlinear_arith)
            requires
                0 <= i,
                j == 4 * (i / 4) + (3 - i % 4),
        ;
        assert(4 * (j / 4) + (3 - j % 4) == i);
    }
    assert(r =~= s);
}

/// Multiplying by 4 and dividing by 4 cancel; a multiple of 4 has no
/// remainder.
proof fn lemma_quad(x: int)
    by (nonlinear_arith)
    ensures
        (4 * x) % 4 == 0,
        (4 * x) / 4 == x,
{
}

/// A number with no remainder mod 4 is 4 times its quotient.
proof fn lemma_quad_rebuild(l: int)
    by (nonlinear_arith)
    requires
        l % 4 == 0,
        l >= 0,
    ensures
        l == 4 * (l / 4),
{
}

#[derive(Clone, Copy, Debug, PartialEq, Eq, Structural)]
pub enum IconError {
    /// The buffer length does not match the declared geometry (or is not a
    /// whole number of 4-byte samples).
    BadGeometry,
}

/// A native icon, modelled as the raw material the native handle is created
/// from: its dimensions and the pixel buffer in native (B,G,R,A) byte order.
#[derive(Debug)]
pub struct NativeIcon {
    pub width: u32,
    pub height: u32,
    pub bgra: Vec<u8>,
}

impl NativeIcon {
    /// The buffer holds exactly one 4-byte sample per pixel.
    pub open spec fn wf(self) -> bool {
        self.bgra.len() == 4 * (self.width * self.height)
    }
}

/// Reverses the bytes of each 4-byte sample of `bytes`.
pub fn reorder_samples(bytes: &Vec<u8>) -> (r: Result<Vec<u8>, IconError>)
    ensures
        bytes.len() % 4 == 0 <==> r is Ok,
        r matches Ok(out) ==> out@ == reordered(bytes@),
{
    if bytes.len() % 4 != 0 {
        return Err(IconError::BadGeometry);
    }
    let n: usize = bytes.len() / 4;
    let mut out: Vec<u8> = Vec::new();
    let mut p: usize = 0;
    while p < n
        invariant
            bytes.len() == 4 * n,
            p <= n,
            out.len() == 4 * p,
            forall|i: int| 0 <= i < out.len() ==> out@[i] == reordered(bytes@)[i],
        decreases n - p,
    {
        let base: usize = 4 * p;
        out.push(bytes[base + 3]);
        out.push(bytes[base + 2]);
        out.push(bytes[base + 1]);
        out.push(bytes[base]);
        assert forall|i: int| 4 * p <= i < 4 * p + 4 implies out@[i] == reordered(
            bytes@,
        )[i] by {
            assert(i / 4 == p && i % 4 == i - 4 * p) by (nonlinear_arith)
                requires
                    4 * p <= i < 4 * p + 4,
            ;
        }
        p = p + 1;
    }
    Ok(out)
}

/// Converts a remote pixmap (A,R,G,B byte order) into a native icon of the
/// same dimensions, with the bytes of each sample reordered to B,G,R,A.
pub fn from_argb32_network_order(width: u32, height: u32, argb: &Vec<u8>) -> (r: Result<
    NativeIcon,
    IconError,
>)
    ensures
        argb.len() == 4 * (width * height) <==> r is Ok,
        r matches Ok(icon) ==> icon.width == width && icon.height == height && icon.bgra@
            == reordered(argb@) && icon.wf(),
{
    proof {
        lemma_quad((width * height) as int);
    }
    if argb.len() % 4 != 0 {
        return Err(IconError::BadGeometry);
    }
    let n: u64 = (argb.len() / 4) as u64;
    assert((width as int) * (height as int) <= 18446744065119617025int) by (nonlinear_arith)
        requires
            width <= 4294967295u32 && height <= 4294967295u32,
    ;
    if n != (width as u64) * (height as u64) {
        return Err(IconError::BadGeometry);
    }
    proof {
        lemma_quad_rebuild(argb.len() as int);
    }
    let bgra = match reorder_samples(argb) {
        Ok(b) => b,
        Err(e) => {
            return Err(e);
        },
    };
    Ok(NativeIcon { width, height, bgra })
}

/// Converts a native buffer back into remote byte order. The reorder is its
/// own inverse, so this is the same byte permutation.
pub fn to_argb32_network_order(icon: &NativeIcon) -> (r: Vec<u8>)
    requires
        icon.wf(),
    ensures
        r@ == reordered(icon.bgra@),
        reordered(r@) == icon.bgra@,
{
    proof {
        lemma_quad((icon.width * icon.height) as int);
        lemma_reorder_involution(icon.bgra@);
    }
    match reorder_samples(&icon.bgra) {
        Ok(b) => b,
        Err(_) => {
            proof {
                assert(false);
            }
            Vec::new()
        },
    }
}

} // verus!
