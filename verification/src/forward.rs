//! The decisions of the forward pass: whether a sample fits a network, and
//! which output neuron wins.
//!
//! The activations themselves are computed outside this library. They are
//! handed in as the 64 bits of their binary64 encoding: one sign bit, then
//! the magnitude. Two such words are compared by sign and magnitude, which
//! is the order of the numbers they encode, with both zeros equal. A word
//! that encodes no number is placed by its sign and magnitude like any
//! other: beyond the infinity of its sign.

use vstd::prelude::*;
use crate::error::Error;
use crate::image::Image;
use crate::image::PIXELS;
use crate::network::{drawn_network, valid_topology, NetworkModel, NeuralNetwork, CLASSES};

verus! {

/// The sign bit of an activation word.
pub const SIGN_BIT: u64 = 0x8000_0000_0000_0000;

/// The most output neurons a network may have: one per value of a label.
pub const MAX_CLASSES: usize = 256;

/// Why a sample cannot be run through a network, if it cannot: the network
/// needs an input layer and at least one more, and the sample one entry
/// per input neuron.
pub open spec fn input_fault(net: NetworkModel, sample: Seq<u8>) -> Option<Error> {
    if net.len() < 2 {
        Some(Error::InvalidTopology)
    } else if sample.len() != net[0].len() {
        Some(Error::DimensionMismatch)
    } else {
        None
    }
}

impl NeuralNetwork {
    /// Checks that the sample can be run through this network, before any
    /// activation is computed.
    pub fn check_input(&self, img: &Image) -> (r: Result<(), Error>)
        ensures
            match r {
                Ok(_) => input_fault(self@, img@) is None,
                Err(e) => input_fault(self@, img@) == Some(e),
            },
    {
        if self.layer.len() < 2 {
            return Err(Error::InvalidTopology);
        }
        if img.len() != self.layer[0].len() {
            return Err(Error::DimensionMismatch);
        }
        Ok(())
    }
}

/// The place of an activation word in the order of activations: its
/// magnitude, negated when the sign bit is set.
pub open spec fn order_key(bits: u64) -> int {
    if bits < SIGN_BIT {
        bits as int
    } else {
        -(bits - SIGN_BIT)
    }
}

/// Computes the place of an activation word in the order of activations.
pub fn key_of(bits: u64) -> (k: i64)
    ensures
        k == order_key(bits),
{
    if bits < SIGN_BIT {
        bits as i64
    } else {
        let magnitude: u64 = bits - SIGN_BIT;
        0 - (magnitude as i64)
    }
}

/// Position `at` holds the greatest activation, and no position before it
/// holds one as great.
pub open spec fn is_first_maximum(activations: Seq<u64>, at: int) -> bool {
    &&& 0 <= at < activations.len()
    &&& forall|j: int|
        0 <= j < activations.len() ==> order_key(#[trigger] activations[j]) <= order_key(
            activations[at],
        )
    &&& forall|j: int|
        0 <= j < at ==> order_key(#[trigger] activations[j]) < order_key(activations[at])
}

/// Picks the winning output neuron from the activations of the output
/// layer: the one with the greatest activation, and of several as great
/// the first. Returns its index as the label and its activation word as
/// the confidence.
///
/// An output layer with no neuron, or with more neurons than a label can
/// count, is no usable topology.
pub fn select_output(activations: &Vec<u64>) -> (r: Result<(u8, u64), Error>)
    ensures
        match r {
            Ok((label, confidence)) => {
                &&& 0 < activations@.len() <= MAX_CLASSES
                &&& is_first_maximum(activations@, label as int)
                &&& confidence == activations@[label as int]
            },
            Err(e) => {
                &&& e == Error::InvalidTopology
                &&& (activations@.len() == 0 || activations@.len() > MAX_CLASSES)
            },
        },
{
    let n: usize = activations.len();
    if n == 0 || n > MAX_CLASSES {
        return Err(Error::InvalidTopology);
    }
    let mut best: usize = 0;
    let mut best_key: i64 = key_of(activations[0]);
    let mut i: usize = 1;
    while i < n
        invariant
            1 <= i <= n,
            n == activations@.len(),
            n <= MAX_CLASSES,
            best < i,
            best_key == order_key(activations@[best as int]),
            forall|j: int|
                0 <= j < i ==> order_key(#[trigger] activations@[j]) <= order_key(
                    activations@[best as int],
                ),
            forall|j: int|
                0 <= j < best ==> order_key(#[trigger] activations@[j]) < order_key(
                    activations@[best as int],
                ),
        decreases n - i,
    {
        let key: i64 = key_of(activations[i]);
        if key > best_key {
            best = i;
            best_key = key;
        }
        i += 1;
    }
    Ok((best as u8, activations[best]))
}

/// The winner is unique: two positions that both hold the first maximum
/// are one position.
pub proof fn lemma_first_maximum_unique(activations: Seq<u64>, a: int, b: int)
    requires
        is_first_maximum(activations, a),
        is_first_maximum(activations, b),
    ensures
        a == b,
{
    let ka = order_key(activations[a]);
    let kb = order_key(activations[b]);
    if a < b {
        assert(ka < kb && kb <= ka);
    } else if b < a {
        assert(kb < ka && ka <= kb);
    }
}

/// Among activations that are all equal, the first one wins, and the
/// confidence is its word.
pub proof fn lemma_tie_selects_first(activations: Seq<u64>, at: int)
    requires
        is_first_maximum(activations, at),
        forall|j: int|
            0 <= j < activations.len() ==> order_key(#[trigger] activations[j]) == order_key(
                activations[0],
            ),
    ensures
        at == 0,
        activations[at] == activations[0],
{
    if at > 0 {
        assert(order_key(activations[0]) < order_key(activations[at]));
    }
}

/// A network built from accepted layer sizes takes every full raster, and
/// the winner among the activations of its output layer is a digit: a
/// label from 0 to 9.
pub proof fn lemma_built_network_labels_digits(
    sizes: Seq<u32>,
    seed: (u64, u64),
    sample: Seq<u8>,
    outputs: Seq<u64>,
    at: int,
)
    requires
        valid_topology(sizes),
        sample.len() == PIXELS,
        outputs.len() == drawn_network(sizes, seed).last().len(),
        is_first_maximum(outputs, at),
    ensures
        input_fault(drawn_network(sizes, seed), sample) is None,
        outputs.len() == CLASSES,
        0 <= at <= 9,
{
    let m = drawn_network(sizes, seed);
    if sizes.len() == 1 {
        assert(sizes.last() == sizes[0]);
    }
    assert(m[0].len() == sizes[0]);
    assert(m.last().len() == sizes.last());
}

} // verus!
