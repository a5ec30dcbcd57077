use rand::SeedableRng;
use rand_chacha::ChaCha8Rng;

use evosim::fx::FX_ONE;
use evosim::network::{Layer, LayerTopology, Network, Neuron};

#[test]
fn random() {
    let mut rng = ChaCha8Rng::from_seed(Default::default());

    let network = Network::random(
        &mut rng,
        &vec![
            LayerTopology { neurons: 3 },
            LayerTopology { neurons: 2 },
            LayerTopology { neurons: 1 },
        ],
    );

    assert_eq!(network.layers.len(), 2);
    assert_eq!(network.layers[0].neurons.len(), 2);
    assert_eq!(network.layers[1].neurons.len(), 1);
    assert_eq!(network.layers[0].neurons[0].weights.len(), 3);
    assert_eq!(network.layers[1].neurons[0].weights.len(), 2);

    // captured reference values for this seed: the full flat gene order
    let actual = network.weights();
    let expected: Vec<i64> = vec![
        -50123, -31236, -10427, -13739, 65429, 1312, 61973, -14043, -17978, -547, 17941,
    ];
    assert_eq!(actual, expected);
}

#[test]
fn from_weights() {
    let topology = vec![LayerTopology { neurons: 3 }, LayerTopology { neurons: 2 }];
    let weights: Vec<i64> = vec![100, 200, 300, 400, 500, 600, 700, 800];

    let actual = Network::from_weights(&topology, &weights).weights();

    assert_eq!(actual, weights);
}

#[test]
fn from_weights_round_trips_for_a_deeper_topology() {
    let topology = vec![
        LayerTopology { neurons: 4 },
        LayerTopology { neurons: 3 },
        LayerTopology { neurons: 2 },
    ];
    // 3 * (4 + 1) + 2 * (3 + 1) genes
    let weights: Vec<i64> = (0..23).map(|n: i64| (n - 11) * 777).collect();
    let actual = Network::from_weights(&topology, &weights).weights();
    assert_eq!(actual, weights);
}

#[test]
fn propagate() {
    let layer0 = Layer {
        neurons: vec![
            Neuron { bias: 0, weights: vec![-FX_ONE / 2, -FX_ONE * 4 / 10, -FX_ONE * 3 / 10] },
            Neuron { bias: 0, weights: vec![-FX_ONE / 5, -FX_ONE / 10, 0] },
        ],
    };
    let layer1 = Layer { neurons: vec![Neuron { bias: 0, weights: vec![-FX_ONE / 2, FX_ONE / 2] }] };

    let network = Network::new(vec![
        Layer { neurons: layer0.neurons.clone() },
        Layer { neurons: layer1.neurons.clone() },
    ]);
    let inputs: Vec<i64> = vec![FX_ONE / 2, FX_ONE * 6 / 10, FX_ONE * 7 / 10];

    let actual = network.propagate(inputs.clone());

    let intermediate = Network::new(vec![layer0]).propagate(inputs);
    let expected = Network::new(vec![layer1]).propagate(intermediate);

    assert_eq!(actual, expected);
}

#[test]
fn weights() {
    let network = Network::new(vec![
        Layer { neurons: vec![Neuron { bias: 100, weights: vec![200, 300, 400] }] },
        Layer { neurons: vec![Neuron { bias: 500, weights: vec![600, 700, 800] }] },
    ]);

    let actual = network.weights();
    let expected: Vec<i64> = vec![100, 200, 300, 400, 500, 600, 700, 800];

    assert_eq!(actual, expected);
}

#[test]
fn propagate_applies_the_rectifier() {
    // One neuron whose weighted sum is negative: the output must be zero.
    let network = Network::new(vec![Layer {
        neurons: vec![Neuron { bias: -FX_ONE, weights: vec![0] }],
    }]);
    let out = network.propagate(vec![FX_ONE]);
    assert_eq!(out, vec![0]);

    // And a positive sum passes through: bias 1, weight 1, input 1 -> 2.
    let network = Network::new(vec![Layer {
        neurons: vec![Neuron { bias: FX_ONE, weights: vec![FX_ONE] }],
    }]);
    let out = network.propagate(vec![FX_ONE]);
    assert_eq!(out, vec![2 * FX_ONE]);
}
