//! Deterministic pseudo-random number generation.
//!
//! The sampling generator is the standard `pcg32` (PCG-XSH-RR with 64-bit
//! LCG state and explicit stream), and per-job seeds are expanded with the
//! SplitMix64 mixer. Both are short integer recurrences implemented here
//! and pinned exactly by spec mirrors, so every random draw is a function
//! of the seed alone: the whole renderer is reproducible.

use vstd::prelude::*;
use vstd::wrapping::u64_specs;
use crate::fx::FX_ONE;
use crate::vec3::{sp_v3_div, sp_v3_length, sp_v3_length_squared, Vec3};

verus! {

/// LCG multiplier for 64-bit PCG state.
pub const PCG_MULTIPLIER: u64 = 6364136223846793005;

/// SplitMix64 increment (the golden-ratio constant).
pub const SPLITMIX_PHI: u64 = 0x9e3779b97f4a7c15;

/// The `pcg32` generator: a 64-bit linear congruential state with an odd
/// stream increment and 32-bit XSH-RR output.
#[derive(Clone, Copy, PartialEq, Eq, Structural, Debug)]
pub struct Pcg32 {
    pub state: u64,
    pub increment: u64,
}

/// Spec mirror of one LCG state advance.
pub open spec fn sp_pcg_step(state: u64, increment: u64) -> u64 {
    u64_specs::wrapping_add(u64_specs::wrapping_mul(state, PCG_MULTIPLIER), increment)
}

/// Spec mirror of the XSH-RR output permutation on a pre-step state.
pub open spec fn sp_pcg_output(state: u64) -> u32 {
    let rot = (state >> 59) as u32;
    let xsh = (((state >> 18) ^ state) >> 27) as u32;
    if rot == 0 {
        xsh
    } else {
        (xsh >> rot) | (xsh << (32 - rot))
    }
}

/// Spec mirror of the generator after one draw.
pub open spec fn sp_pcg_next(g: Pcg32) -> Pcg32 {
    Pcg32 { state: sp_pcg_step(g.state, g.increment), increment: g.increment }
}

/// Spec mirror of constructing a generator from a state and stream.
pub open spec fn sp_pcg_new(state: u64, stream: u64) -> Pcg32 {
    let increment = (stream << 1) | 1;
    let moved = u64_specs::wrapping_add(state, increment);
    Pcg32 { state: sp_pcg_step(moved, increment), increment }
}

impl Pcg32 {
    /// Construct from a state and a stream selector; the stream's top bit
    /// is discarded so the increment is odd.
    pub fn new(state: u64, stream: u64) -> (r: Pcg32)
        ensures
            r == sp_pcg_new(state, stream),
    {
        let increment: u64 = (stream << 1u32) | 1;
        let moved = state.wrapping_add(increment);
        let mut g = Pcg32 { state: moved, increment };
        g.state = g.state.wrapping_mul(PCG_MULTIPLIER).wrapping_add(increment);
        g
    }

    /// Draw 32 bits; the output permutes the pre-step state.
    pub fn next_u32(&mut self) -> (r: u32)
        ensures
            r == sp_pcg_output(old(self).state),
            *final(self) == sp_pcg_next(*old(self)),
    {
        let state = self.state;
        self.state = self.state.wrapping_mul(PCG_MULTIPLIER).wrapping_add(self.increment);
        let rot: u32 = (state >> 59u32) as u32;
        let xsh: u32 = (((state >> 18u32) ^ state) >> 27u32) as u32;
        proof {
            assert(state >> 59u64 < 32u64) by (bit_vector);
        }
        if rot == 0 {
            xsh
        } else {
            (xsh >> rot) | (xsh << (32 - rot))
        }
    }

    /// Draw a fixed-point scalar uniform over `[0, 1)`: the top 16 bits of
    /// one 32-bit draw.
    pub fn next_unit(&mut self) -> (r: i64)
        ensures
            r == sp_pcg_unit(old(self).state),
            *final(self) == sp_pcg_next(*old(self)),
            0 <= r < FX_ONE,
    {
        let w = self.next_u32();
        proof {
            assert(w >> 16u32 < 65536u32) by (bit_vector);
        }
        (w >> 16u32) as i64
    }
}

/// Spec mirror of `next_unit`'s value for a pre-step state.
pub open spec fn sp_pcg_unit(state: u64) -> i64 {
    (sp_pcg_output(state) >> 16) as i64
}

/// The SplitMix64 mixer used to expand one 64-bit seed into streams.
#[derive(Clone, Copy, PartialEq, Eq, Structural, Debug)]
pub struct SplitMix64 {
    pub x: u64,
}

/// Spec mirror of the SplitMix64 output for an already-incremented state.
pub open spec fn sp_splitmix_mix(x: u64) -> u64 {
    let z1 = u64_specs::wrapping_mul(x ^ (x >> 30), 0xbf58476d1ce4e5b9);
    let z2 = u64_specs::wrapping_mul(z1 ^ (z1 >> 27), 0x94d049bb133111eb);
    z2 ^ (z2 >> 31)
}

/// Spec mirror of the state after one draw.
pub open spec fn sp_splitmix_step(x: u64) -> u64 {
    u64_specs::wrapping_add(x, SPLITMIX_PHI)
}

impl SplitMix64 {
    /// Seed directly from a 64-bit value.
    pub fn seed_from_u64(seed: u64) -> (r: SplitMix64)
        ensures
            r.x == seed,
    {
        SplitMix64 { x: seed }
    }

    /// Draw 64 bits.
    pub fn next_u64(&mut self) -> (r: u64)
        ensures
            final(self).x == sp_splitmix_step(old(self).x),
            r == sp_splitmix_mix(sp_splitmix_step(old(self).x)),
    {
        self.x = self.x.wrapping_add(SPLITMIX_PHI);
        let mut z = self.x;
        z = (z ^ (z >> 30u32)).wrapping_mul(0xbf58476d1ce4e5b9);
        z = (z ^ (z >> 27u32)).wrapping_mul(0x94d049bb133111eb);
        z ^ (z >> 31u32)
    }
}

/// How many rejection attempts the unit-sphere sampler makes before it
/// falls back to a fixed axis.
pub const SPHERE_SAMPLE_TRIES: u32 = 16;

/// Spec mirror of drawing one coordinate in `[-1, 1)` from a generator.
pub open spec fn sp_draw_coord(g: Pcg32) -> (i64, Pcg32) {
    let w = sp_pcg_output(g.state);
    ((((w & 0x1ffff) as i64) - FX_ONE) as i64, sp_pcg_next(g))
}

/// Spec mirror of the bounded rejection sampling of a unit direction:
/// draw a point in the cube, accept it when its length lands in
/// `[1/2, 1]`, and normalize; after `tries` rejections fall back to the
/// `z` axis.
pub open spec fn sp_sample_unit(g: Pcg32, tries: nat) -> (Vec3, Pcg32)
    decreases tries,
{
    if tries == 0 {
        (Vec3 { x: 0i64, y: 0i64, z: FX_ONE }, g)
    } else {
        let (x, g1) = sp_draw_coord(g);
        let (y, g2) = sp_draw_coord(g1);
        let (z, g3) = sp_draw_coord(g2);
        let v = Vec3 { x, y, z };
        let ls = sp_v3_length_squared(v);
        if FX_ONE as int / 4 <= ls <= FX_ONE as int {
            (sp_v3_div(v, sp_v3_length(v)), g3)
        } else {
            sp_sample_unit(g3, (tries - 1) as nat)
        }
    }
}

/// Draw one coordinate in `[-1, 1)`.
fn draw_coord(rng: &mut Pcg32) -> (r: i64)
    ensures
        (r, *final(rng)) == sp_draw_coord(*old(rng)),
        -FX_ONE <= r < FX_ONE,
{
    let w = rng.next_u32();
    proof {
        assert(w & 0x1ffff < 0x20000u32) by (bit_vector);
    }
    ((w & 0x1ffff) as i64) - FX_ONE
}

/// Sample an approximately unit-length direction, uniformly over the
/// sphere up to fixed-point rounding, by bounded rejection from the cube.
pub fn sample_unit_sphere(rng: &mut Pcg32) -> (r: Vec3)
    ensures
        (r, *final(rng)) == sp_sample_unit(*old(rng), SPHERE_SAMPLE_TRIES as nat),
{
    let mut tries: u32 = SPHERE_SAMPLE_TRIES;
    loop
        invariant
            tries <= SPHERE_SAMPLE_TRIES,
            sp_sample_unit(*old(rng), SPHERE_SAMPLE_TRIES as nat) == sp_sample_unit(
                *rng,
                tries as nat,
            ),
        decreases tries,
    {
        if tries == 0 {
            return Vec3 { x: 0, y: 0, z: FX_ONE };
        }
        let x = draw_coord(rng);
        let y = draw_coord(rng);
        let z = draw_coord(rng);
        let v = Vec3 { x, y, z };
        let ls = v.length_squared();
        if FX_ONE / 4 <= ls && ls <= FX_ONE {
            return v.div(v.length());
        }
        tries = tries - 1;
    }
}

/// How many draws a seed-texture cell makes before falling back to a
/// fixed non-zero value.
pub const SEED_CELL_TRIES: u32 = 8;

/// Spec mirror of one texture cell: two 64-bit draws split into four
/// words, redrawn while all four are zero (a zero cell would give that
/// pixel a dead generator), with a fixed non-zero fallback.
pub open spec fn sp_seed_cell(x: u64, tries: nat) -> ([u32; 4], u64)
    decreases tries,
{
    if tries == 0 {
        ([0u32, 0u32, 0u32, 1u32], x)
    } else {
        let x1 = sp_splitmix_step(x);
        let z1 = sp_splitmix_mix(x1);
        let x2 = sp_splitmix_step(x1);
        let z2 = sp_splitmix_mix(x2);
        let cell = [z1 as u32, (z1 >> 32) as u32, z2 as u32, (z2 >> 32) as u32];
        if cell[0] == 0 && cell[1] == 0 && cell[2] == 0 && cell[3] == 0 {
            sp_seed_cell(x2, (tries - 1) as nat)
        } else {
            (cell, x2)
        }
    }
}

/// Draw one non-zero seed-texture cell.
fn seed_cell(sm: &mut SplitMix64) -> (r: [u32; 4])
    ensures
        (r, final(sm).x) == sp_seed_cell(old(sm).x, SEED_CELL_TRIES as nat),
        !(r[0] == 0 && r[1] == 0 && r[2] == 0 && r[3] == 0),
{
    let mut tries: u32 = SEED_CELL_TRIES;
    loop
        invariant
            tries <= SEED_CELL_TRIES,
            sp_seed_cell(old(sm).x, SEED_CELL_TRIES as nat) == sp_seed_cell(sm.x, tries as nat),
        decreases tries,
    {
        if tries == 0 {
            return [0, 0, 0, 1];
        }
        let z1 = sm.next_u64();
        let z2 = sm.next_u64();
        let cell: [u32; 4] = [z1 as u32, (z1 >> 32u32) as u32, z2 as u32, (z2 >> 32u32) as u32];
        if !(cell[0] == 0 && cell[1] == 0 && cell[2] == 0 && cell[3] == 0) {
            return cell;
        }
        tries = tries - 1;
    }
}

/// Spec mirror of the whole seed texture, one cell after another.
pub open spec fn sp_seed_texture(x: u64, count: nat) -> Seq<[u32; 4]>
    decreases count,
{
    if count == 0 {
        Seq::empty()
    } else {
        let (cell, x1) = sp_seed_cell(x, SEED_CELL_TRIES as nat);
        seq![cell] + sp_seed_texture(x1, (count - 1) as nat)
    }
}

/// Generate the per-pixel generator seeds uploaded as a texture: one
/// non-zero four-word cell per pixel, all derived from one seed.
pub fn seed_texture_data(width: u32, height: u32, seed: u64) -> (r: Vec<[u32; 4]>)
    requires
        width * height <= usize::MAX,
    ensures
        r@ == sp_seed_texture(seed, (width * height) as nat),
        r@.len() == width * height,
        forall|i: int|
            0 <= i < r@.len() ==> !((#[trigger] r@[i])[0] == 0 && r@[i][1] == 0 && r@[i][2] == 0
                && r@[i][3] == 0),
{
    let mut sm = SplitMix64::seed_from_u64(seed);
    let count: usize = (width as usize) * (height as usize);
    let mut out: Vec<[u32; 4]> = Vec::new();
    let mut left: usize = count;
    while left > 0
        invariant
            left <= count,
            out@.len() == count - left,
            out@ + sp_seed_texture(sm.x, left as nat) == sp_seed_texture(seed, count as nat),
            forall|i: int|
                0 <= i < out@.len() ==> !((#[trigger] out@[i])[0] == 0 && out@[i][1] == 0
                    && out@[i][2] == 0 && out@[i][3] == 0),
        decreases left,
    {
        let cell = seed_cell(&mut sm);
        out.push(cell);
        left = left - 1;
        proof {
            assert(out@ + sp_seed_texture(sm.x, left as nat) =~= sp_seed_texture(
                seed,
                count as nat,
            ));
        }
    }
    proof {
        assert(out@ =~= sp_seed_texture(seed, count as nat));
    }
    out
}

} // verus!
