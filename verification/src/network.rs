//! Layered networks of fully connected neurons, and the builder that draws
//! their weights and biases from a seeded generator.
//!
//! A weight or a bias is held as the 64-bit word that was drawn for it. The
//! word `w` stands for the fraction `w / (2^64 - 1)`, a number from 0 to 1.

use vstd::prelude::*;
use random::Xorshift128Plus;
use crate::error::Error;
use crate::generator::{
    advance, generator_state, lemma_advance_sum, lemma_zero_state_stays, next_word, seeded,
    stream_word,
};

verus! {

/// Neurons in the input layer: one per pixel of a raster.
pub const INPUTS: u32 = 784;

/// Neurons in the output layer: one per digit.
pub const CLASSES: u32 = 10;

/// The function that turns a neuron's weighted sum into its activation.
#[derive(Clone, Copy, Debug, PartialEq, Eq, Structural)]
pub enum Activation {
    /// The sum itself.
    Identity,
    /// The logistic function of the sum.
    Sigmoid,
}

/// What a neuron is: its weights, one per neuron of the layer before, and
/// its bias.
pub struct NeuronModel {
    pub weight: Seq<u64>,
    pub bias: u64,
}

/// A neuron. One of the input layer has no weights and a zero bias.
#[derive(Clone, Debug, PartialEq, Eq)]
pub struct Neuron {
    pub weight: Vec<u64>,
    pub bias: u64,
}

impl View for Neuron {
    type V = NeuronModel;

    open spec fn view(&self) -> NeuronModel {
        NeuronModel { weight: self.weight@, bias: self.bias }
    }
}

/// The neuron that stands for one input: no weights, zero bias.
pub open spec fn input_neuron() -> NeuronModel {
    NeuronModel { weight: Seq::empty(), bias: 0 }
}

/// The neuron with `fan_in` weights that is drawn from a generator in state
/// `s`: the weights are the first `fan_in` words of the stream, in order,
/// and the bias is the word after them.
pub open spec fn neuron_from(s: (u64, u64), fan_in: nat) -> NeuronModel {
    NeuronModel {
        weight: Seq::new(fan_in, |k: int| stream_word(s, k as nat)),
        bias: stream_word(s, fan_in),
    }
}

impl Neuron {
    /// Draws a neuron with `nb_conn` weights from the generator: first the
    /// weights, in order, then the bias. The generator is left `nb_conn + 1`
    /// words further on.
    pub fn new_random(source: &mut Xorshift128Plus, nb_conn: usize) -> (n: Neuron)
        ensures
            n@ == neuron_from(generator_state(*old(source)), nb_conn as nat),
            generator_state(*final(source)) == advance(
                generator_state(*old(source)),
                (nb_conn + 1) as nat,
            ),
    {
        let ghost start = generator_state(*source);
        let mut weight: Vec<u64> = Vec::with_capacity(nb_conn);
        let mut k: usize = 0;
        while k < nb_conn
            invariant
                k <= nb_conn,
                weight@.len() == k,
                forall|t: int| 0 <= t < k ==> weight@[t] == stream_word(start, t as nat),
                generator_state(*source) == advance(start, k as nat),
            decreases nb_conn - k,
        {
            let w: u64 = next_word(source);
            weight.push(w);
            k += 1;
        }
        let bias: u64 = next_word(source);
        let n = Neuron { weight, bias };
        assert(n@.weight =~= neuron_from(start, nb_conn as nat).weight);
        n
    }

    /// The neuron with `nb_conn` weights that a stream of zero words gives:
    /// the one drawn from a generator whose two words of state are zero.
    fn new_still(nb_conn: usize) -> (n: Neuron)
        ensures
            n@ == neuron_from((0u64, 0u64), nb_conn as nat),
    {
        let mut weight: Vec<u64> = Vec::with_capacity(nb_conn);
        let mut k: usize = 0;
        while k < nb_conn
            invariant
                k <= nb_conn,
                weight@.len() == k,
                forall|t: int| 0 <= t < k ==> weight@[t] == 0,
            decreases nb_conn - k,
        {
            weight.push(0);
            k += 1;
        }
        let n = Neuron { weight, bias: 0 };
        proof {
            lemma_zero_state_stays(nb_conn as nat);
            assert forall|t: int| 0 <= t < nb_conn implies n@.weight[t] == stream_word(
                (0u64, 0u64),
                t as nat,
            ) by {
                lemma_zero_state_stays(t as nat);
            }
            assert(n@.weight =~= neuron_from((0u64, 0u64), nb_conn as nat).weight);
        }
        n
    }
}

/// What a network is: its layers in order, each the sequence of its
/// neurons.
pub type NetworkModel = Seq<Seq<NeuronModel>>;

/// A network: the input layer first, the output layer last.
#[derive(Clone, Debug, PartialEq, Eq)]
pub struct NeuralNetwork {
    pub layer: Vec<Vec<Neuron>>,
    pub activation: Activation,
}

impl View for NeuralNetwork {
    type V = NetworkModel;

    open spec fn view(&self) -> NetworkModel {
        Seq::new(
            self.layer@.len(),
            |i: int| Seq::new(self.layer@[i]@.len(), |j: int| self.layer@[i]@[j]@),
        )
    }
}

/// A network is well formed when it has an input layer and at least one
/// more, its input neurons have no weights and no bias, and every other
/// neuron has one weight per neuron of the layer before.
pub open spec fn well_formed(m: NetworkModel) -> bool {
    &&& m.len() >= 2
    &&& forall|j: int| 0 <= j < m[0].len() ==> #[trigger] m[0][j] == input_neuron()
    &&& forall|i: int, j: int|
        1 <= i < m.len() && 0 <= j < m[i].len() ==> (#[trigger] m[i][j]).weight.len()
            == m[i - 1].len()
}

/// The layer sizes that the builder accepts: the first is the number of
/// pixels, the last the number of classes.
pub open spec fn valid_topology(sizes: Seq<u32>) -> bool {
    &&& sizes.len() > 0
    &&& sizes[0] == INPUTS
    &&& sizes.last() == CLASSES
}

/// The number of words drawn before the first neuron of layer `i`: nothing
/// for the input layer, and for each neuron of a later layer one word per
/// neuron of the layer before it and one more.
pub open spec fn draws_before(sizes: Seq<u32>, i: int) -> nat
    decreases i,
{
    if i <= 1 {
        0
    } else {
        draws_before(sizes, i - 1) + (sizes[i - 1] as nat) * (sizes[i - 2] as nat + 1)
    }
}

/// The number of words drawn before neuron `j` of layer `i`, for a layer
/// after the input layer.
pub open spec fn first_draw(sizes: Seq<u32>, i: int, j: int) -> nat {
    draws_before(sizes, i) + (j as nat) * (sizes[i - 1] as nat + 1)
}

/// Neuron `j` of layer `i` in the network that is built from `sizes` and
/// `seed`.
pub open spec fn drawn_neuron(sizes: Seq<u32>, seed: (u64, u64), i: int, j: int) -> NeuronModel {
    if i == 0 {
        input_neuron()
    } else {
        neuron_from(advance(seed, first_draw(sizes, i, j)), sizes[i - 1] as nat)
    }
}

/// Layer `i` of the network that is built from `sizes` and `seed`.
pub open spec fn drawn_layer(sizes: Seq<u32>, seed: (u64, u64), i: int) -> Seq<NeuronModel> {
    Seq::new(sizes[i] as nat, |j: int| drawn_neuron(sizes, seed, i, j))
}

/// The network that is built from `sizes` and `seed`: one stream of words,
/// handed out layer by layer, neuron by neuron, to each neuron its weights
/// and then its bias.
pub open spec fn drawn_network(sizes: Seq<u32>, seed: (u64, u64)) -> NetworkModel {
    Seq::new(sizes.len(), |i: int| drawn_layer(sizes, seed, i))
}

/// A network built from accepted layer sizes is well formed.
pub proof fn lemma_drawn_well_formed(sizes: Seq<u32>, seed: (u64, u64))
    requires
        valid_topology(sizes),
    ensures
        well_formed(drawn_network(sizes, seed)),
{
    let m = drawn_network(sizes, seed);
    assert(m.len() >= 2) by {
        if sizes.len() == 1 {
            assert(sizes.last() == sizes[0]);
        }
    }
    assert forall|i: int, j: int|
        1 <= i < m.len() && 0 <= j < m[i].len() implies (#[trigger] m[i][j]).weight.len()
        == m[i - 1].len() by {
        assert(m[i][j] == drawn_neuron(sizes, seed, i, j));
        assert(m[i - 1].len() == sizes[i - 1]);
    }
}

/// Where the builder stands after `k` words of the stream that starts in
/// state `s`: its generator is in the state that `k` reads lead to. For the
/// state of two zero words, which never moves, it holds no generator.
spec fn reads_done(source: Option<Xorshift128Plus>, s: (u64, u64), k: nat) -> bool {
    match source {
        Some(g) => generator_state(g) == advance(s, k),
        None => s == (0u64, 0u64),
    }
}

impl NeuralNetwork {
    /// Builds the network with the given layer sizes.
    ///
    /// Sizes that start with the number of pixels and end with the number
    /// of classes are accepted, and no others. The weights and biases come
    /// from one generator seeded with `seed`, read in a fixed order, so the
    /// same sizes and seed give the same network every time.
    ///
    /// Every seed is taken. With the seed of two zero words the stream
    /// holds zero words only, and so does the network.
    pub fn new(layer_sizes: &Vec<u32>, seed: [u64; 2], activation: Activation) -> (r: Result<
        NeuralNetwork,
        Error,
    >)
        ensures
            match r {
                Ok(net) => {
                    &&& valid_topology(layer_sizes@)
                    &&& net@ == drawn_network(layer_sizes@, (seed[0], seed[1]))
                    &&& net.activation == activation
                    &&& well_formed(net@)
                },
                Err(e) => !valid_topology(layer_sizes@) && e == Error::InvalidTopology,
            },
    {
        let depth: usize = layer_sizes.len();
        if depth == 0 || layer_sizes[0] != INPUTS || layer_sizes[depth - 1] != CLASSES {
            return Err(Error::InvalidTopology);
        }
        let ghost sizes = layer_sizes@;
        let ghost s = (seed[0], seed[1]);
        let mut source: Option<Xorshift128Plus> = if seed[0] == 0 && seed[1] == 0 {
            None
        } else {
            Some(seeded(seed[0], seed[1]))
        };
        let mut layer: Vec<Vec<Neuron>> = Vec::with_capacity(depth);
        let mut i: usize = 0;
        while i < depth
            invariant
                i <= depth,
                depth == sizes.len(),
                sizes == layer_sizes@,
                layer@.len() == i,
                forall|l: int|
                    0 <= l < i ==> (#[trigger] layer@[l])@.len() == sizes[l],
                forall|l: int, j: int|
                    0 <= l < i && 0 <= j < sizes[l] ==> (#[trigger] layer@[l]@[j])@
                        == drawn_neuron(sizes, s, l, j),
                reads_done(source, s, draws_before(sizes, i as int)),
            decreases depth - i,
        {
            let count: usize = layer_sizes[i] as usize;
            let mut neurons: Vec<Neuron> = Vec::with_capacity(count);
            let mut j: usize = 0;
            if i == 0 {
                while j < count
                    invariant
                        j <= count,
                        neurons@.len() == j,
                        forall|t: int| 0 <= t < j ==> (#[trigger] neurons@[t])@ == input_neuron(),
                    decreases count - j,
                {
                    let blank = Neuron { weight: Vec::new(), bias: 0 };
                    assert(blank@.weight =~= input_neuron().weight);
                    neurons.push(blank);
                    j += 1;
                }
            } else {
                let fan_in: usize = layer_sizes[i - 1] as usize;
                assert(first_draw(sizes, i as int, 0) == draws_before(sizes, i as int)) by {
                    assert(0 * (fan_in + 1) == 0) by (nonlinear_arith);
                }
                while j < count
                    invariant
                        j <= count,
                        1 <= i < depth,
                        depth == sizes.len(),
                        sizes == layer_sizes@,
                        count == sizes[i as int],
                        fan_in == sizes[i - 1],
                        neurons@.len() == j,
                        forall|t: int|
                            0 <= t < j ==> (#[trigger] neurons@[t])@ == drawn_neuron(
                                sizes,
                                s,
                                i as int,
                                t,
                            ),
                        reads_done(source, s, first_draw(sizes, i as int, j as int)),
                    decreases count - j,
                {
                    proof {
                        lemma_advance_sum(
                            s,
                            first_draw(sizes, i as int, j as int),
                            (fan_in + 1) as nat,
                        );
                        lemma_zero_state_stays(first_draw(sizes, i as int, j as int));
                        assert((j + 1) * (fan_in + 1) == j * (fan_in + 1) + (fan_in + 1))
                            by (nonlinear_arith);
                    }
                    let n = match &mut source {
                        Some(g) => Neuron::new_random(g, fan_in),
                        None => Neuron::new_still(fan_in),
                    };
                    neurons.push(n);
                    j += 1;
                }
            }
            layer.push(neurons);
            i += 1;
        }
        let net = NeuralNetwork { layer, activation };
        proof {
            assert forall|l: int| 0 <= l < sizes.len() implies #[trigger] net@[l] == drawn_layer(
                sizes,
                s,
                l,
            ) by {
                assert(net@[l] =~= drawn_layer(sizes, s, l));
            }
            assert(net@ =~= drawn_network(sizes, s));
            lemma_drawn_well_formed(sizes, s);
        }
        Ok(net)
    }
}

/// Two networks built from the same layer sizes with the same seed hold
/// the same weights and biases, word for word.
pub proof fn lemma_build_deterministic(
    sizes: Seq<u32>,
    seed: (u64, u64),
    first: NeuralNetwork,
    second: NeuralNetwork,
)
    requires
        first@ == drawn_network(sizes, seed),
        second@ == drawn_network(sizes, seed),
    ensures
        first@ == second@,
        first.layer@.len() == second.layer@.len(),
        forall|i: int, j: int|
            0 <= i < first.layer@.len() && 0 <= j < first.layer@[i]@.len()
                ==> (#[trigger] first.layer@[i]@[j])@ == second.layer@[i]@[j]@,
{
    assert(first@.len() == second@.len());
    assert forall|i: int, j: int|
        0 <= i < first.layer@.len() && 0 <= j < first.layer@[i]@.len() implies
        (#[trigger] first.layer@[i]@[j])@ == second.layer@[i]@[j]@ by {
        assert(first@[i].len() == second@[i].len());
        assert(first@[i][j] == second@[i][j]);
    }
}

} // verus!
