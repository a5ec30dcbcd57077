//! The feedforward neural network.
//!
//! A network is an ordered sequence of fully-connected layers; each neuron
//! holds one bias and one weight per input.  The flat gene order is fixed:
//! layer-major, then neuron-major within a layer, then bias followed by the
//! weights in input order.  `from_weights` consumes a flat sequence in that
//! order and `weights` emits it again; decoding then re-encoding is proved
//! to be the identity.

use vstd::prelude::*;
use vstd::arithmetic::mul::{
    lemma_mul_inequality, lemma_mul_nonnegative, lemma_mul_is_distributive_add_other_way,
    lemma_mul_basics,
};
use crate::fx::{FX_ONE, FX_LIM, fx_in_range, fx_clamped, fx_mul_spec, fx_add, fx_mul};
use crate::chromosome::genes_in_range;
use crate::rng::rng_fx_range;

verus! {

/// Neuron count of one layer of a topology descriptor.
#[derive(Clone, Copy, Debug, PartialEq, Eq, Structural)]
pub struct LayerTopology {
    pub neurons: usize,
}

/// One neuron: a bias and one weight per input.
#[derive(Clone, Debug)]
pub struct Neuron {
    pub bias: i64,
    pub weights: Vec<i64>,
}

/// One fully-connected layer.
#[derive(Clone, Debug)]
pub struct Layer {
    pub neurons: Vec<Neuron>,
}

/// A feedforward network: layers applied strictly in order.
#[derive(Clone, Debug)]
pub struct Network {
    pub layers: Vec<Layer>,
}

/// A neuron with one weight per input, every parameter in range.
pub open spec fn neuron_wf(n: Neuron, nin: nat) -> bool {
    &&& n.weights@.len() == nin
    &&& fx_in_range(n.bias as int)
    &&& genes_in_range(n.weights@)
}

/// A non-empty layer of well-formed neurons of the given input width.
pub open spec fn layer_wf(l: Layer, nin: nat, nout: nat) -> bool {
    &&& l.neurons@.len() == nout
    &&& nin >= 1
    &&& nout >= 1
    &&& forall|j: int| 0 <= j < l.neurons@.len() ==> neuron_wf(#[trigger] l.neurons@[j], nin)
}

/// A topology descriptor: at least two layers, each non-empty.
pub open spec fn topology_wf(topo: Seq<LayerTopology>) -> bool {
    &&& topo.len() >= 2
    &&& forall|i: int| 0 <= i < topo.len() ==> (#[trigger] topo[i].neurons) >= 1
}

/// The network has exactly the shape the topology describes.
pub open spec fn net_matches(net: Network, topo: Seq<LayerTopology>) -> bool {
    &&& net.layers@.len() + 1 == topo.len()
    &&& forall|i: int|
        0 <= i < net.layers@.len() ==> layer_wf(
            #[trigger] net.layers@[i],
            topo[i].neurons as nat,
            topo[i + 1].neurons as nat,
        )
}

/// Input width of layer `i`: the previous layer's neuron count, or for the
/// first layer the length of its neurons' weight vectors.
pub open spec fn layer_nin(net: Network, i: int) -> nat {
    if i == 0 {
        net.layers@[0].neurons@[0].weights@.len()
    } else {
        net.layers@[i - 1].neurons@.len()
    }
}

/// Consecutive layers agree on their widths.
pub open spec fn net_wf(net: Network) -> bool {
    &&& net.layers@.len() >= 1
    &&& forall|i: int|
        0 <= i < net.layers@.len() ==> layer_wf(
            #[trigger] net.layers@[i],
            layer_nin(net, i),
            net.layers@[i].neurons@.len() as nat,
        )
}

/// Length of the input vector the network expects.
pub open spec fn input_size(net: Network) -> nat {
    layer_nin(net, 0)
}

/// Length of the output vector the network produces.
pub open spec fn output_size(net: Network) -> nat {
    net.layers@.last().neurons@.len()
}

/// Every parameter of the neuron lies within `bound` in magnitude.
pub open spec fn neuron_bounded(n: Neuron, bound: int) -> bool {
    &&& -bound <= n.bias <= bound
    &&& forall|i: int| 0 <= i < n.weights@.len() ==> -bound <= #[trigger] n.weights@[i] <= bound
}

/// Every parameter of the layer lies within `bound` in magnitude.
pub open spec fn layer_bounded(l: Layer, bound: int) -> bool {
    forall|j: int| 0 <= j < l.neurons@.len() ==> neuron_bounded(#[trigger] l.neurons@[j], bound)
}

/// Every bias and weight of the network lies within `bound` in magnitude.
pub open spec fn net_bounded(net: Network, bound: int) -> bool {
    forall|i: int| 0 <= i < net.layers@.len() ==> layer_bounded(#[trigger] net.layers@[i], bound)
}

/// Flat genes of one neuron: bias, then weights in input order.
pub open spec fn neuron_genes(n: Neuron) -> Seq<i64> {
    seq![n.bias] + n.weights@
}

/// Flat genes of a neuron sequence, in order.
pub open spec fn neurons_genes(ns: Seq<Neuron>) -> Seq<i64>
    decreases ns.len(),
{
    if ns.len() == 0 {
        Seq::empty()
    } else {
        neurons_genes(ns.drop_last()) + neuron_genes(ns.last())
    }
}

/// Flat genes of one layer.
pub open spec fn layer_genes(l: Layer) -> Seq<i64> {
    neurons_genes(l.neurons@)
}

/// Flat genes of a layer sequence, in order.
pub open spec fn layers_genes(ls: Seq<Layer>) -> Seq<i64>
    decreases ls.len(),
{
    if ls.len() == 0 {
        Seq::empty()
    } else {
        layers_genes(ls.drop_last()) + layer_genes(ls.last())
    }
}

/// The network's flat gene sequence.
pub open spec fn net_genes(net: Network) -> Seq<i64> {
    layers_genes(net.layers@)
}

/// Genes consumed by the layers before layer `k` of a topology.
pub open spec fn expected_prefix(topo: Seq<LayerTopology>, k: int) -> int
    decreases k,
{
    if k <= 1 {
        0
    } else {
        expected_prefix(topo, k - 1) + topo[k - 1].neurons * (topo[k - 2].neurons + 1)
    }
}

/// Exact flat gene count of a topology.
pub open spec fn expected_weights(topo: Seq<LayerTopology>) -> int {
    expected_prefix(topo, topo.len() as int)
}

proof fn lemma_expected_prefix_mono(topo: Seq<LayerTopology>, k: int, j: int)
    requires
        1 <= k <= j <= topo.len(),
    ensures
        expected_prefix(topo, k) <= expected_prefix(topo, j),
    decreases j,
{
    if j > k {
        lemma_expected_prefix_mono(topo, k, j - 1);
        lemma_mul_nonnegative(topo[j - 1].neurons as int, topo[j - 2].neurons + 1 as int);
    }
}

/// A network that matches a well-formed topology is well-formed.
pub proof fn lemma_matches_implies_wf(net: Network, topo: Seq<LayerTopology>)
    requires
        net_matches(net, topo),
        topo.len() >= 2,
    ensures
        net_wf(net),
{
    assert forall|i: int| 0 <= i < net.layers@.len() implies layer_wf(
        #[trigger] net.layers@[i],
        layer_nin(net, i),
        net.layers@[i].neurons@.len() as nat,
    ) by {
        assert(layer_wf(net.layers@[i], topo[i].neurons as nat, topo[i + 1].neurons as nat));
        if i == 0 {
            assert(neuron_wf(net.layers@[0].neurons@[0], topo[0].neurons as nat));
        } else {
            assert(layer_wf(net.layers@[i - 1], topo[i - 1].neurons as nat, topo[i].neurons as nat));
        }
    }
}

proof fn lemma_neurons_genes_len(ns: Seq<Neuron>, nin: nat)
    requires
        forall|i: int| 0 <= i < ns.len() ==> neuron_wf(#[trigger] ns[i], nin),
    ensures
        neurons_genes(ns).len() == ns.len() * (nin + 1),
    decreases ns.len(),
{
    if ns.len() == 0 {
    } else {
        lemma_neurons_genes_len(ns.drop_last(), nin);
        assert(neuron_wf(ns.last(), nin));
        lemma_mul_is_distributive_add_other_way(nin + 1 as int, ns.len() - 1, 1);
        lemma_mul_basics(nin + 1 as int);
    }
}

proof fn lemma_neurons_genes_range(ns: Seq<Neuron>, nin: nat)
    requires
        forall|i: int| 0 <= i < ns.len() ==> neuron_wf(#[trigger] ns[i], nin),
    ensures
        genes_in_range(neurons_genes(ns)),
    decreases ns.len(),
{
    if ns.len() == 0 {
    } else {
        lemma_neurons_genes_range(ns.drop_last(), nin);
        assert(neuron_wf(ns.last(), nin));
        let a = neurons_genes(ns.drop_last());
        let b = neuron_genes(ns.last());
        assert forall|i: int| 0 <= i < (a + b).len() implies fx_in_range(
            #[trigger] (a + b)[i] as int,
        ) by {
            if i < a.len() {
                assert((a + b)[i] == a[i]);
            } else {
                assert((a + b)[i] == b[i - a.len()]);
                if i - a.len() > 0 {
                    assert(b[i - a.len()] == ns.last().weights@[i - a.len() - 1]);
                }
            }
        }
    }
}

proof fn lemma_net_genes_prefix_len(net: Network, topo: Seq<LayerTopology>, k: int)
    requires
        net_matches(net, topo),
        topology_wf(topo),
        0 <= k <= net.layers@.len(),
    ensures
        layers_genes(net.layers@.take(k)).len() == expected_prefix(topo, k + 1),
        genes_in_range(layers_genes(net.layers@.take(k))),
    decreases k,
{
    if k == 0 {
        assert(net.layers@.take(0) =~= Seq::<Layer>::empty());
    } else {
        lemma_net_genes_prefix_len(net, topo, k - 1);
        assert(net.layers@.take(k).drop_last() =~= net.layers@.take(k - 1));
        assert(net.layers@.take(k).last() == net.layers@[k - 1]);
        let l = net.layers@[k - 1];
        assert(layer_wf(l, topo[k - 1].neurons as nat, topo[k].neurons as nat));
        lemma_neurons_genes_len(l.neurons@, topo[k - 1].neurons as nat);
        lemma_neurons_genes_range(l.neurons@, topo[k - 1].neurons as nat);
        let a = layers_genes(net.layers@.take(k - 1));
        let b = layer_genes(l);
        assert forall|i: int| 0 <= i < (a + b).len() implies fx_in_range(
            #[trigger] (a + b)[i] as int,
        ) by {
            if i < a.len() {
                assert((a + b)[i] == a[i]);
            } else {
                assert((a + b)[i] == b[i - a.len()]);
            }
        }
    }
}

/// The flat gene count of a matching network is the topology's expected
/// count, and every emitted gene lies in the fixed-point range.
pub proof fn lemma_net_genes_len(net: Network, topo: Seq<LayerTopology>)
    requires
        net_matches(net, topo),
        topology_wf(topo),
    ensures
        net_genes(net).len() == expected_weights(topo),
        genes_in_range(net_genes(net)),
{
    lemma_net_genes_prefix_len(net, topo, net.layers@.len() as int);
    assert(net.layers@.take(net.layers@.len() as int) =~= net.layers@);
}

/// The rectified linear unit.
pub open spec fn relu_spec(v: int) -> int {
    if v < 0 {
        0
    } else {
        v
    }
}

/// Accumulator of one neuron over the first `k` inputs, seeded by the bias.
pub open spec fn neuron_acc(n: Neuron, ins: Seq<i64>, k: int) -> int
    decreases k,
{
    if k <= 0 {
        n.bias as int
    } else {
        fx_clamped(neuron_acc(n, ins, k - 1) + fx_mul_spec(n.weights@[k - 1] as int, ins[k - 1] as int))
    }
}

/// One neuron's output: rectified linear unit of bias plus dot product.
pub open spec fn neuron_out(n: Neuron, ins: Seq<i64>) -> i64 {
    relu_spec(neuron_acc(n, ins, n.weights@.len() as int)) as i64
}

/// Output vector of one layer.
pub open spec fn layer_out(l: Layer, ins: Seq<i64>) -> Seq<i64> {
    Seq::new(l.neurons@.len(), |j: int| neuron_out(l.neurons@[j], ins))
}

/// The input vector pushed through a sequence of layers, first layer first.
pub open spec fn net_out_from(ls: Seq<Layer>, ins: Seq<i64>) -> Seq<i64>
    decreases ls.len(),
{
    if ls.len() == 0 {
        ins
    } else {
        net_out_from(ls.drop_first(), layer_out(ls[0], ins))
    }
}

/// The network's output vector for a given input vector.
pub open spec fn net_out(net: Network, ins: Seq<i64>) -> Seq<i64> {
    net_out_from(net.layers@, ins)
}

fn propagate_neuron(n: &Neuron, ins: &Vec<i64>) -> (r: i64)
    requires
        n.weights@.len() == ins@.len(),
        fx_in_range(n.bias as int),
        genes_in_range(n.weights@),
        genes_in_range(ins@),
    ensures
        r == neuron_out(*n, ins@),
        0 <= r <= FX_LIM,
{
    let mut acc: i64 = n.bias;
    let mut k: usize = 0;
    while k < ins.len()
        invariant
            k <= ins@.len(),
            n.weights@.len() == ins@.len(),
            genes_in_range(n.weights@),
            genes_in_range(ins@),
            fx_in_range(acc as int),
            acc == neuron_acc(*n, ins@, k as int),
        decreases ins@.len() - k,
    {
        proof {
            assert(fx_in_range(n.weights@[k as int] as int));
            assert(fx_in_range(ins@[k as int] as int));
        }
        acc = fx_add(acc, fx_mul(n.weights[k], ins[k]));
        k = k + 1;
    }
    if acc < 0 {
        0
    } else {
        acc
    }
}

fn propagate_layer(l: &Layer, ins: &Vec<i64>) -> (r: Vec<i64>)
    requires
        forall|j: int| 0 <= j < l.neurons@.len() ==> neuron_wf(#[trigger] l.neurons@[j], ins@.len() as nat),
        genes_in_range(ins@),
    ensures
        r@ == layer_out(*l, ins@),
        r@.len() == l.neurons@.len(),
        genes_in_range(r@),
{
    let mut out: Vec<i64> = Vec::new();
    let mut j: usize = 0;
    while j < l.neurons.len()
        invariant
            j <= l.neurons@.len(),
            forall|i: int|
                0 <= i < l.neurons@.len() ==> neuron_wf(#[trigger] l.neurons@[i], ins@.len() as nat),
            genes_in_range(ins@),
            out@.len() == j,
            forall|i: int| 0 <= i < j ==> out@[i] == neuron_out(#[trigger] l.neurons@[i], ins@),
            genes_in_range(out@),
        decreases l.neurons@.len() - j,
    {
        let v = propagate_neuron(&l.neurons[j], ins);
        out.push(v);
        j = j + 1;
    }
    proof {
        assert(out@ =~= layer_out(*l, ins@));
    }
    out
}

impl Network {
    /// Apply each layer in order to the input vector.
    pub fn propagate(&self, inputs: Vec<i64>) -> (r: Vec<i64>)
        requires
            net_wf(*self),
            inputs@.len() == input_size(*self),
            genes_in_range(inputs@),
        ensures
            r@ == net_out(*self, inputs@),
            r@.len() == output_size(*self),
            genes_in_range(r@),
    {
        proof {
            assert(self.layers@.skip(0) =~= self.layers@);
        }
        let mut cur = inputs;
        let mut li: usize = 0;
        while li < self.layers.len()
            invariant
                li <= self.layers@.len(),
                net_wf(*self),
                genes_in_range(cur@),
                li < self.layers@.len() ==> cur@.len() == layer_nin(*self, li as int),
                li == self.layers@.len() ==> cur@.len() == output_size(*self),
                net_out_from(self.layers@.skip(li as int), cur@) == net_out(*self, inputs@),
            decreases self.layers@.len() - li,
        {
            proof {
                assert(layer_wf(
                    self.layers@[li as int],
                    layer_nin(*self, li as int),
                    self.layers@[li as int].neurons@.len() as nat,
                ));
                assert(self.layers@.skip(li as int).drop_first() =~= self.layers@.skip(li + 1));
                assert(self.layers@.skip(li as int)[0] == self.layers@[li as int]);
            }
            let nxt = propagate_layer(&self.layers[li], &cur);
            cur = nxt;
            li = li + 1;
        }
        proof {
            assert(self.layers@.skip(self.layers@.len() as int) =~= Seq::<Layer>::empty());
        }
        cur
    }

    /// Draw a fresh network for a topology: for each layer, for each neuron,
    /// one bias then one weight per input, each uniform in `[-1, 1]`.
    pub fn random(rng: &mut rand_chacha::ChaCha8Rng, topo: &Vec<LayerTopology>) -> (r: Network)
        requires
            topology_wf(topo@),
        ensures
            net_wf(r),
            net_matches(r, topo@),
            net_bounded(r, FX_ONE as int),
    {
        let mut layers: Vec<Layer> = Vec::new();
        let mut li: usize = 1;
        while li < topo.len()
            invariant
                1 <= li <= topo@.len(),
                topology_wf(topo@),
                layers@.len() == li - 1,
                forall|i: int|
                    0 <= i < li - 1 ==> layer_wf(
                        #[trigger] layers@[i],
                        topo@[i].neurons as nat,
                        topo@[i + 1].neurons as nat,
                    ),
                forall|i: int| 0 <= i < li - 1 ==> layer_bounded(#[trigger] layers@[i], FX_ONE as int),
            decreases topo@.len() - li,
        {
            let l = random_layer(rng, topo[li - 1].neurons, topo[li].neurons);
            layers.push(l);
            li = li + 1;
        }
        let r = Network { layers };
        proof {
            assert(net_matches(r, topo@));
            lemma_matches_implies_wf(r, topo@);
        }
        r
    }
}

fn random_neuron(rng: &mut rand_chacha::ChaCha8Rng, nin: usize) -> (n: Neuron)
    ensures
        neuron_wf(n, nin as nat),
        neuron_bounded(n, FX_ONE as int),
{
    let bias = rng_fx_range(rng, -FX_ONE, FX_ONE);
    let mut ws: Vec<i64> = Vec::new();
    let mut k: usize = 0;
    while k < nin
        invariant
            k <= nin,
            ws@.len() == k,
            genes_in_range(ws@),
            forall|i: int| 0 <= i < k ==> -FX_ONE <= #[trigger] ws@[i] <= FX_ONE,
        decreases nin - k,
    {
        let w = rng_fx_range(rng, -FX_ONE, FX_ONE);
        ws.push(w);
        k = k + 1;
    }
    Neuron { bias, weights: ws }
}

fn random_layer(rng: &mut rand_chacha::ChaCha8Rng, nin: usize, nout: usize) -> (l: Layer)
    requires
        nin >= 1,
        nout >= 1,
    ensures
        layer_wf(l, nin as nat, nout as nat),
        layer_bounded(l, FX_ONE as int),
{
    let mut neurons: Vec<Neuron> = Vec::new();
    let mut j: usize = 0;
    while j < nout
        invariant
            j <= nout,
            neurons@.len() == j,
            forall|i: int| 0 <= i < j ==> neuron_wf(#[trigger] neurons@[i], nin as nat),
            forall|i: int| 0 <= i < j ==> neuron_bounded(#[trigger] neurons@[i], FX_ONE as int),
        decreases nout - j,
    {
        let n = random_neuron(rng, nin);
        neurons.push(n);
        j = j + 1;
    }
    Layer { neurons }
}

fn decode_neuron(weights: &Vec<i64>, start: usize, nin: usize) -> (n: Neuron)
    requires
        start + nin + 1 <= weights@.len(),
        genes_in_range(weights@),
    ensures
        neuron_wf(n, nin as nat),
        neuron_genes(n) == weights@.subrange(start as int, start + nin + 1),
{
    let wl: usize = weights.len();
    let bias = weights[start];
    let mut ws: Vec<i64> = Vec::new();
    let mut j: usize = 0;
    while j < nin
        invariant
            j <= nin,
            start + nin + 1 <= weights@.len(),
            weights@.len() <= usize::MAX,
            genes_in_range(weights@),
            ws@ == weights@.subrange(start + 1, start + 1 + j),
        decreases nin - j,
    {
        ws.push(weights[start + 1 + j]);
        proof {
            assert(ws@ =~= weights@.subrange(start + 1, start + 1 + (j + 1)));
        }
        j = j + 1;
    }
    let n = Neuron { bias, weights: ws };
    proof {
        assert(fx_in_range(weights@[start as int] as int));
        assert(neuron_genes(n) =~= weights@.subrange(start as int, start + nin + 1));
        assert forall|i: int| 0 <= i < n.weights@.len() implies fx_in_range(
            #[trigger] n.weights@[i] as int,
        ) by {
            assert(n.weights@[i] == weights@[start + 1 + i]);
        }
    }
    n
}

fn decode_layer(weights: &Vec<i64>, start: usize, nin: usize, nout: usize) -> (l: Layer)
    requires
        nin >= 1,
        nout >= 1,
        start + nout * (nin + 1) <= weights@.len(),
        genes_in_range(weights@),
    ensures
        layer_wf(l, nin as nat, nout as nat),
        layer_genes(l) == weights@.subrange(start as int, start + nout * (nin + 1)),
{
    let wl: usize = weights.len();
    proof {
        lemma_mul_inequality(1, nout as int, nin + 1);
        lemma_mul_basics(nin + 1);
    }
    let step: usize = nin + 1;
    let mut neurons: Vec<Neuron> = Vec::new();
    let mut j: usize = 0;
    while j < nout
        invariant
            j <= nout,
            nin >= 1,
            nout >= 1,
            step == nin + 1,
            start + nout * (nin + 1) <= weights@.len(),
            weights@.len() <= usize::MAX,
            genes_in_range(weights@),
            neurons@.len() == j,
            forall|i: int| 0 <= i < j ==> neuron_wf(#[trigger] neurons@[i], nin as nat),
            neurons_genes(neurons@) == weights@.subrange(start as int, start + j * (nin + 1)),
        decreases nout - j,
    {
        proof {
            lemma_mul_is_distributive_add_other_way(nin + 1, j as int, 1);
            lemma_mul_basics(nin + 1);
            lemma_mul_inequality(j + 1, nout as int, nin + 1);
            lemma_mul_inequality(j as int, nout as int, nin + 1);
            lemma_mul_nonnegative(j as int, nin + 1);
        }
        let ghost prev = neurons@;
        let n = decode_neuron(weights, start + j * step, nin);
        neurons.push(n);
        proof {
            assert(neurons@.drop_last() =~= prev);
            assert(neurons@.last() == n);
            assert(neurons_genes(neurons@) == neurons_genes(prev) + neuron_genes(n));
            assert(weights@.subrange(start as int, start + (j + 1) * (nin + 1)) =~= weights@
                .subrange(start as int, start + j * (nin + 1)) + weights@.subrange(
                start + j * (nin + 1),
                start + (j + 1) * (nin + 1),
            ));
        }
        j = j + 1;
    }
    Layer { neurons }
}

impl Network {
    /// Wrap a layer vector as a network.
    pub fn new(layers: Vec<Layer>) -> (r: Network)
        ensures
            r.layers == layers,
    {
        Network { layers }
    }

    /// Rebuild a network from a flat gene sequence, consuming it in the
    /// fixed order; re-encoding the result yields the input exactly.
    pub fn from_weights(topo: &Vec<LayerTopology>, weights: &Vec<i64>) -> (r: Network)
        requires
            topology_wf(topo@),
            weights@.len() == expected_weights(topo@),
            genes_in_range(weights@),
        ensures
            net_wf(r),
            net_matches(r, topo@),
            net_genes(r) == weights@,
    {
        let wl: usize = weights.len();
        let mut layers: Vec<Layer> = Vec::new();
        let mut cursor: usize = 0;
        let mut li: usize = 1;
        while li < topo.len()
            invariant
                1 <= li <= topo@.len(),
                topology_wf(topo@),
                weights@.len() == expected_weights(topo@),
                weights@.len() <= usize::MAX,
                genes_in_range(weights@),
                layers@.len() == li - 1,
                cursor == expected_prefix(topo@, li as int),
                cursor <= weights@.len(),
                layers_genes(layers@) == weights@.subrange(0, cursor as int),
                forall|i: int|
                    0 <= i < li - 1 ==> layer_wf(
                        #[trigger] layers@[i],
                        topo@[i].neurons as nat,
                        topo@[i + 1].neurons as nat,
                    ),
            decreases topo@.len() - li,
        {
            let nin = topo[li - 1].neurons;
            let nout = topo[li].neurons;
            proof {
                lemma_expected_prefix_mono(topo@, li + 1, topo@.len() as int);
                assert(expected_prefix(topo@, li + 1) == cursor + nout * (nin + 1));
                lemma_mul_inequality(1, nout as int, nin + 1);
                lemma_mul_basics(nin + 1);
            }
            let step: usize = nout * (nin + 1);
            let ghost prev = layers@;
            let l = decode_layer(weights, cursor, nin, nout);
            layers.push(l);
            proof {
                assert(layers@.drop_last() =~= prev);
                assert(layers_genes(layers@) == layers_genes(prev) + layer_genes(l));
                assert(weights@.subrange(0, cursor + nout * (nin + 1)) =~= weights@.subrange(
                    0,
                    cursor as int,
                ) + weights@.subrange(cursor as int, cursor + nout * (nin + 1)));
            }
            cursor = cursor + step;
            li = li + 1;
        }
        let r = Network { layers };
        proof {
            assert(weights@.subrange(0, cursor as int) =~= weights@);
            assert(net_matches(r, topo@));
            lemma_matches_implies_wf(r, topo@);
        }
        r
    }

    /// Emit the flat gene sequence: layer-major, neuron-major, bias first.
    pub fn weights(&self) -> (r: Vec<i64>)
        ensures
            r@ == net_genes(*self),
    {
        let mut out: Vec<i64> = Vec::new();
        let mut li: usize = 0;
        while li < self.layers.len()
            invariant
                li <= self.layers@.len(),
                out@ == layers_genes(self.layers@.take(li as int)),
            decreases self.layers@.len() - li,
        {
            let mut j: usize = 0;
            while j < self.layers[li].neurons.len()
                invariant
                    li < self.layers@.len(),
                    j <= self.layers@[li as int].neurons@.len(),
                    out@ == layers_genes(self.layers@.take(li as int)) + neurons_genes(
                        self.layers@[li as int].neurons@.take(j as int),
                    ),
                decreases self.layers@[li as int].neurons@.len() - j,
            {
                out.push(self.layers[li].neurons[j].bias);
                let mut k: usize = 0;
                while k < self.layers[li].neurons[j].weights.len()
                    invariant
                        li < self.layers@.len(),
                        j < self.layers@[li as int].neurons@.len(),
                        k <= self.layers@[li as int].neurons@[j as int].weights@.len(),
                        out@ == layers_genes(self.layers@.take(li as int)) + neurons_genes(
                            self.layers@[li as int].neurons@.take(j as int),
                        ) + seq![self.layers@[li as int].neurons@[j as int].bias]
                            + self.layers@[li as int].neurons@[j as int].weights@.take(k as int),
                    decreases self.layers@[li as int].neurons@[j as int].weights@.len() - k,
                {
                    out.push(self.layers[li].neurons[j].weights[k]);
                    proof {
                        assert(self.layers@[li as int].neurons@[j as int].weights@.take(k + 1)
                            =~= self.layers@[li as int].neurons@[j as int].weights@.take(k as int)
                            + seq![self.layers@[li as int].neurons@[j as int].weights@[k as int]]);
                    }
                    k = k + 1;
                }
                proof {
                    let ns = self.layers@[li as int].neurons@;
                    let n = ns[j as int];
                    assert(n.weights@.take(n.weights@.len() as int) =~= n.weights@);
                    assert(ns.take(j + 1).drop_last() =~= ns.take(j as int));
                    assert(ns.take(j + 1).last() == n);
                    assert(neurons_genes(ns.take(j + 1)) == neurons_genes(ns.take(j as int))
                        + neuron_genes(n));
                    assert(out@ =~= layers_genes(self.layers@.take(li as int)) + neurons_genes(
                        ns.take(j + 1),
                    ));
                }
                j = j + 1;
            }
            proof {
                let ls = self.layers@;
                let l = ls[li as int];
                assert(l.neurons@.take(l.neurons@.len() as int) =~= l.neurons@);
                assert(ls.take(li + 1).drop_last() =~= ls.take(li as int));
                assert(ls.take(li + 1).last() == l);
                assert(layers_genes(ls.take(li + 1)) == layers_genes(ls.take(li as int))
                    + layer_genes(l));
            }
            li = li + 1;
        }
        proof {
            assert(self.layers@.take(self.layers@.len() as int) =~= self.layers@);
        }
        out
    }
}

} // verus!
