//! The per-frame uniform record and its fixed byte layout.
//!
//! The packed layout is load-bearing: twelve little-endian 32-bit words
//! in the order eye.x, eye.y, eye.z, fov, target.x, target.y, target.z,
//! pad, time, pad, pad, pad — the eye/fov and target/pad pairings follow
//! 16-byte vector alignment.  Each word holds a fixed-point scalar as a
//! 32-bit two's-complement value.

use vstd::prelude::*;
use crate::camera::Camera;
use crate::fx::in_range;
use crate::vec3::Vec3Fixed;

verus! {

#[derive(Clone, Copy, Debug, PartialEq, Eq, Structural)]
pub struct ComputeUniforms {
    pub camera: Camera,
    pub time: i64,
}

/// Every packed field within the 32-bit two's-complement range.
pub open spec fn uniforms_wf(u: ComputeUniforms) -> bool {
    &&& in_range(u.camera.eye.x as int)
    &&& in_range(u.camera.eye.y as int)
    &&& in_range(u.camera.eye.z as int)
    &&& in_range(u.camera.target.x as int)
    &&& in_range(u.camera.target.y as int)
    &&& in_range(u.camera.target.z as int)
    &&& in_range(u.camera.fov as int)
    &&& in_range(u.time as int)
}

/// The unsigned 32-bit representation of a scalar in `[-CMAX, CMAX]`.
pub open spec fn u32_repr(x: int) -> int {
    if x >= 0 {
        x
    } else {
        x + 0x1_0000_0000
    }
}

/// The scalar a 32-bit word represents.
pub open spec fn word_val(w: int) -> int {
    if w >= 0x8000_0000 {
        w - 0x1_0000_0000
    } else {
        w
    }
}

/// A 32-bit word as four little-endian bytes.
pub open spec fn le_bytes(w: int) -> Seq<u8> {
    let b0 = w % 256;
    let r1 = w / 256;
    let b1 = r1 % 256;
    let r2 = r1 / 256;
    let b2 = r2 % 256;
    let b3 = r2 / 256;
    seq![b0 as u8, b1 as u8, b2 as u8, b3 as u8]
}

/// The word four little-endian bytes hold.
pub open spec fn word_of(s: Seq<u8>) -> int {
    ((s[3] * 256 + s[2]) * 256 + s[1]) * 256 + s[0]
}

/// One scalar field as its four packed bytes.
pub open spec fn field_bytes(x: int) -> Seq<u8> {
    le_bytes(u32_repr(x))
}

/// The full 48-byte packed layout.
pub open spec fn pack_s(u: ComputeUniforms) -> Seq<u8> {
    field_bytes(u.camera.eye.x as int) + field_bytes(u.camera.eye.y as int) + field_bytes(
        u.camera.eye.z as int,
    ) + field_bytes(u.camera.fov as int) + field_bytes(u.camera.target.x as int) + field_bytes(
        u.camera.target.y as int,
    ) + field_bytes(u.camera.target.z as int) + field_bytes(0) + field_bytes(u.time as int)
        + field_bytes(0) + field_bytes(0) + field_bytes(0)
}

/// The scalar at word position `k` of a packed buffer.
pub open spec fn unpacked_field(bytes: Seq<u8>, k: int) -> int {
    word_val(word_of(bytes.subrange(4 * k, 4 * k + 4)))
}

/// Reading a 48-byte buffer back into a uniform record.
pub open spec fn unpack_s(bytes: Seq<u8>) -> Option<ComputeUniforms> {
    if bytes.len() != 48 {
        None
    } else {
        Some(
            ComputeUniforms {
                camera: Camera {
                    eye: Vec3Fixed {
                        x: unpacked_field(bytes, 0) as i64,
                        y: unpacked_field(bytes, 1) as i64,
                        z: unpacked_field(bytes, 2) as i64,
                    },
                    target: Vec3Fixed {
                        x: unpacked_field(bytes, 4) as i64,
                        y: unpacked_field(bytes, 5) as i64,
                        z: unpacked_field(bytes, 6) as i64,
                    },
                    fov: unpacked_field(bytes, 3) as i64,
                },
                time: unpacked_field(bytes, 8) as i64,
            },
        )
    }
}

impl ComputeUniforms {
    pub fn new(camera: Camera, time: i64) -> (r: ComputeUniforms)
        ensures
            r == (ComputeUniforms { camera, time }),
    {
        ComputeUniforms { camera, time }
    }

    pub fn update_time(&mut self, time: i64)
        ensures
            *final(self) == (ComputeUniforms { time, ..*old(self) }),
    {
        self.time = time;
    }

    pub fn update_camera(&mut self, camera: Camera)
        ensures
            *final(self) == (ComputeUniforms { camera, ..*old(self) }),
    {
        self.camera = camera;
    }

    /// The record as the exact 48 bytes the GPU-side layout expects.
    pub fn pack(&self) -> (r: Vec<u8>)
        requires
            uniforms_wf(*self),
        ensures
            r@ == pack_s(*self),
            r@.len() == 48,
    {
        let mut out: Vec<u8> = Vec::new();
        push_word(&mut out, self.camera.eye.x);
        push_word(&mut out, self.camera.eye.y);
        push_word(&mut out, self.camera.eye.z);
        push_word(&mut out, self.camera.fov);
        push_word(&mut out, self.camera.target.x);
        push_word(&mut out, self.camera.target.y);
        push_word(&mut out, self.camera.target.z);
        push_word(&mut out, 0);
        push_word(&mut out, self.time);
        push_word(&mut out, 0);
        push_word(&mut out, 0);
        push_word(&mut out, 0);
        proof {
            assert(out@ =~= pack_s(*self));
        }
        out
    }
}

impl Default for ComputeUniforms {
    fn default() -> (r: ComputeUniforms)
        ensures
            r.camera.eye == crate::vec3::fx3(0, 0, 2 * crate::fx::SCALE),
            r.camera.target == crate::vec3::fx3(0, 0, 0),
            r.camera.fov == 89 * crate::fx::SCALE,
            r.time == 0,
            uniforms_wf(r),
    {
        ComputeUniforms { camera: Camera::default(), time: 0 }
    }
}

/// Append one scalar as four little-endian bytes.
fn push_word(out: &mut Vec<u8>, x: i64)
    requires
        in_range(x as int),
    ensures
        final(out)@ == old(out)@ + field_bytes(x as int),
{
    let w: u32 = if x >= 0 {
        x as u32
    } else {
        (x + 0x1_0000_0000) as u32
    };
    proof {
        assert(w == u32_repr(x as int));
    }
    let b0: u8 = (w % 256) as u8;
    let r1: u32 = w / 256;
    let b1: u8 = (r1 % 256) as u8;
    let r2: u32 = r1 / 256;
    let b2: u8 = (r2 % 256) as u8;
    let b3: u8 = (r2 / 256) as u8;
    out.push(b0);
    out.push(b1);
    out.push(b2);
    out.push(b3);
    proof {
        assert(out@ =~= old(out)@ + field_bytes(x as int));
    }
}

/// Read a packed buffer back; anything but 48 bytes is rejected.
pub fn unpack(bytes: &Vec<u8>) -> (r: Option<ComputeUniforms>)
    ensures
        r == unpack_s(bytes@),
{
    if bytes.len() != 48 {
        return None;
    }
    let ex = read_word(bytes, 0);
    let ey = read_word(bytes, 1);
    let ez = read_word(bytes, 2);
    let fov = read_word(bytes, 3);
    let tx = read_word(bytes, 4);
    let ty = read_word(bytes, 5);
    let tz = read_word(bytes, 6);
    let time = read_word(bytes, 8);
    Some(
        ComputeUniforms {
            camera: Camera {
                eye: Vec3Fixed { x: ex, y: ey, z: ez },
                target: Vec3Fixed { x: tx, y: ty, z: tz },
                fov,
            },
            time,
        },
    )
}

/// Read the scalar at word position `k`.
fn read_word(bytes: &Vec<u8>, k: usize) -> (r: i64)
    requires
        bytes@.len() == 48,
        k < 12,
    ensures
        r == unpacked_field(bytes@, k as int),
{
    let b0 = bytes[4 * k] as u32;
    let b1 = bytes[4 * k + 1] as u32;
    let b2 = bytes[4 * k + 2] as u32;
    let b3 = bytes[4 * k + 3] as u32;
    let w: u32 = ((b3 * 256 + b2) * 256 + b1) * 256 + b0;
    let r: i64 = if w >= 0x8000_0000 {
        (w as i64) - 0x1_0000_0000
    } else {
        w as i64
    };
    proof {
        let s = bytes@.subrange(4 * k as int, 4 * k as int + 4);
        assert(s[0] == bytes@[4 * k as int] && s[1] == bytes@[4 * k as int + 1] && s[2]
            == bytes@[4 * k as int + 2] && s[3] == bytes@[4 * k as int + 3]);
    }
    r
}

/// Packing then reading back returns the record unchanged: the layout
/// loses nothing.
pub proof fn lemma_pack_unpack(u: ComputeUniforms)
    requires
        uniforms_wf(u),
    ensures
        unpack_s(pack_s(u)) == Some(u),
{
    let b = pack_s(u);
    assert(b.len() == 48);
    assert(b.subrange(0, 4) =~= field_bytes(u.camera.eye.x as int));
    assert(b.subrange(4, 8) =~= field_bytes(u.camera.eye.y as int));
    assert(b.subrange(8, 12) =~= field_bytes(u.camera.eye.z as int));
    assert(b.subrange(12, 16) =~= field_bytes(u.camera.fov as int));
    assert(b.subrange(16, 20) =~= field_bytes(u.camera.target.x as int));
    assert(b.subrange(20, 24) =~= field_bytes(u.camera.target.y as int));
    assert(b.subrange(24, 28) =~= field_bytes(u.camera.target.z as int));
    assert(b.subrange(32, 36) =~= field_bytes(u.time as int));
    lemma_field_at(u, 0, u.camera.eye.x as int);
    lemma_field_at(u, 1, u.camera.eye.y as int);
    lemma_field_at(u, 2, u.camera.eye.z as int);
    lemma_field_at(u, 3, u.camera.fov as int);
    lemma_field_at(u, 4, u.camera.target.x as int);
    lemma_field_at(u, 5, u.camera.target.y as int);
    lemma_field_at(u, 6, u.camera.target.z as int);
    lemma_field_at(u, 8, u.time as int);
}

/// Word `k` of the packed buffer reads back as the field packed there.
proof fn lemma_field_at(u: ComputeUniforms, k: int, x: int)
    requires
        uniforms_wf(u),
        0 <= k < 12,
        pack_s(u).subrange(4 * k, 4 * k + 4) == field_bytes(x),
        in_range(x),
    ensures
        unpacked_field(pack_s(u), k) == x,
{
    lemma_field_round(x);
}

/// A scalar survives the trip through its four packed bytes.
proof fn lemma_field_round(x: int)
    requires
        in_range(x),
    ensures
        word_val(word_of(field_bytes(x))) == x,
{
    let w = u32_repr(x);
    assert(0 <= w < 0x1_0000_0000);
    lemma_le_round(w);
    assert(word_val(w) == x);
}

/// Four little-endian bytes reassemble to the word they came from.
proof fn lemma_le_round(w: int)
    requires
        0 <= w < 0x1_0000_0000,
    ensures
        word_of(le_bytes(w)) == w,
{
    let b0 = w % 256;
    let r1 = w / 256;
    let b1 = r1 % 256;
    let r2 = r1 / 256;
    let b2 = r2 % 256;
    let b3 = r2 / 256;
    assert(w == 256 * r1 + b0);
    assert(r1 == 256 * r2 + b1);
    assert(r2 == 256 * b3 + b2);
    assert(0 <= b0 < 256 && 0 <= b1 < 256 && 0 <= b2 < 256 && 0 <= b3 < 256);
}

} // verus!
