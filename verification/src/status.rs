//! What a compute-unit prover and the whole prover are busy with.

use vstd::prelude::*;

use crate::types::EpochParameters;
use crate::types::CUID;

verus! {

/// Status of one compute-unit prover.
#[derive(Clone, Copy, Debug)]
pub enum CUStatus {
    Idle,
    Running { cu_id: CUID },
}

impl PartialEq for CUStatus {
    fn eq(&self, other: &Self) -> (r: bool) {
        match (self, other) {
            (CUStatus::Idle, CUStatus::Idle) => true,
            (CUStatus::Running { cu_id: a }, CUStatus::Running { cu_id: b }) => *a == *b,
            _ => false,
        }
    }
}

impl vstd::std_specs::cmp::PartialEqSpecImpl for CUStatus {
    open spec fn obeys_eq_spec() -> bool {
        true
    }

    open spec fn eq_spec(&self, other: &Self) -> bool {
        *self == *other
    }
}

impl Eq for CUStatus {}

/// Status of the whole prover.
#[derive(Clone, Copy, Debug)]
pub enum CCStatus {
    Idle,
    Running { epoch: EpochParameters },
}

impl PartialEq for CCStatus {
    fn eq(&self, other: &Self) -> (r: bool) {
        match (self, other) {
            (CCStatus::Idle, CCStatus::Idle) => true,
            (CCStatus::Running { epoch: a }, CCStatus::Running { epoch: b }) => *a == *b,
            _ => false,
        }
    }
}

impl vstd::std_specs::cmp::PartialEqSpecImpl for CCStatus {
    open spec fn obeys_eq_spec() -> bool {
        true
    }

    open spec fn eq_spec(&self, other: &Self) -> bool {
        *self == *other
    }
}

impl Eq for CCStatus {}

} // verus!
