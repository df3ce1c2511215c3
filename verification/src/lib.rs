//! Verified core of a retained-mode 2D rendering backend.
//!
//! The library models the backend's whole decision logic — the
//! frame/pass state machine, texture-adjacency sprite batching,
//! handle-keyed resource registry, uniform-offset packing and
//! growable-buffer sizing — as verified code over plain values.
//! Scalar float payloads travel as IEEE 754 bit patterns (`u32`),
//! exactly as they cross the host boundary. The GPU device itself is
//! driven by an unverified executor that interprets the [`GpuAction`]
//! values this library emits, in order.
//!
//! [`GpuAction`]: actions::GpuAction

use vstd::prelude::*;

pub mod actions;
pub mod backend;
pub mod fbits;
pub mod source_spec;
pub mod sprite;

verus! {

/// Round `v` up to the next multiple of `align`; `align == 0` leaves `v` as is.
///
/// Used to place successive mesh uniform blocks at offsets the device's
/// minimum uniform-buffer-offset alignment allows.
pub fn align_up(v: u64, align: u64) -> (r: u64)
    requires
        align == 0 || v + align - 1 <= u64::MAX,
    ensures
        align == 0 ==> r == v,
        align != 0 ==> v <= r < v + align && r % align == 0,
        align != 0 && v % align == 0 ==> r == v,
{
    if align == 0 {
        return v;
    }
    let q = (v + (align - 1)) / align;
    proof {
        let s: int = v as int + align as int - 1;
        let a: int = align as int;
        assert(v as int <= s / a * a && s / a * a < v as int + a && (s / a * a) % a == 0)
            by (nonlinear_arith)
            requires
                a > 0 && v >= 0 && s == v as int + a - 1,
        ;
        assert(v as int % a == 0 ==> s / a * a == v as int) by (nonlinear_arith)
            requires
                a > 0 && v >= 0 && s == v as int + a - 1,
        ;
    }
    q * align
}

} // verus!
