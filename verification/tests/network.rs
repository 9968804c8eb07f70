use perceptron::error::NetworkError;
use perceptron::network::{count_parameters, has_duplicate, Network};
use perceptron::neuron::Neuron;
use perceptron::scalar::{check_activation, copy_codes, first_max, settle, MINUS_ZERO, ONE};
use perceptron::series::Series;

fn names(list: &[&str]) -> Vec<String> {
    list.iter().map(|name| name.to_string()).collect()
}

fn counting(count: usize) -> Vec<u64> {
    (0..count as u64).map(|value| 100 + value).collect()
}

#[test]
fn count_parameters_of_small_shapes() {
    assert_eq!(count_parameters(2, 0, 0, 2), Some(6));
    assert_eq!(count_parameters(2, 1, 2, 2), Some(12));
    assert_eq!(count_parameters(2, 1, 4, 2), Some(22));
    assert_eq!(count_parameters(2, 3, 4, 2), Some(62));
    assert_eq!(count_parameters(64, 1, 100, 10), Some(7510));
    assert_eq!(count_parameters(0, 0, 0, 3), Some(3));
    assert_eq!(count_parameters(5, 0, 7, 0), Some(0));
}

#[test]
fn count_parameters_that_do_not_fit() {
    assert_eq!(count_parameters(usize::MAX, 0, 0, 1), None);
    assert_eq!(count_parameters(usize::MAX, 0, 0, 0), Some(0));
    assert_eq!(count_parameters(1, usize::MAX, usize::MAX, 1), None);
    assert_eq!(count_parameters(0, usize::MAX, 1, 1), None);
    assert_eq!(count_parameters(0, usize::MAX / 2, 1, 1), Some(usize::MAX));
    assert_eq!(count_parameters(0, usize::MAX / 2 + 1, 1, 1), None);
}

#[test]
fn neuron_takes_bias_then_weights() {
    let parameters = counting(7);
    let neuron = Neuron::new(3, &parameters, 2).unwrap();
    assert_eq!(neuron.bias, 102);
    assert_eq!(neuron.weights, vec![103, 104, 105]);
    assert_eq!(neuron.width(), 3);
    let last = Neuron::new(3, &parameters, 3).unwrap();
    assert_eq!(last.bias, 103);
    assert_eq!(last.weights, vec![104, 105, 106]);
}

#[test]
fn neuron_without_inputs_is_a_bias() {
    let parameters = counting(1);
    let neuron = Neuron::new(0, &parameters, 0).unwrap();
    assert_eq!(neuron.bias, 100);
    assert!(neuron.weights.is_empty());
}

#[test]
fn neuron_needs_all_its_parameters() {
    let parameters = counting(7);
    assert_eq!(Neuron::new(3, &parameters, 4).unwrap_err(), NetworkError::DimensionMismatch);
    assert_eq!(Neuron::new(0, &parameters, 7).unwrap_err(), NetworkError::DimensionMismatch);
    assert_eq!(Neuron::new(7, &parameters, 0).unwrap_err(), NetworkError::DimensionMismatch);
    assert_eq!(
        Neuron::new(usize::MAX, &parameters, 1).unwrap_err(),
        NetworkError::DimensionMismatch
    );
    assert_eq!(
        Neuron::new(1, &parameters, usize::MAX).unwrap_err(),
        NetworkError::DimensionMismatch
    );
}

#[test]
fn network_lays_parameters_out_in_order() {
    let parameters = counting(12);
    let net = Network::new(2, 1, 2, names(&["0", "1"]), &parameters).unwrap();
    assert_eq!(net.inputs, 2);
    assert_eq!(net.hidden_count(), 1);
    assert_eq!(net.hidden_layers.len(), 1);
    assert_eq!(net.hidden_layers[0].len(), 2);
    assert_eq!(net.output_layer.len(), 2);
    assert_eq!(net.hidden_layers[0][0].bias, 100);
    assert_eq!(net.hidden_layers[0][0].weights, vec![101, 102]);
    assert_eq!(net.hidden_layers[0][1].bias, 103);
    assert_eq!(net.hidden_layers[0][1].weights, vec![104, 105]);
    assert_eq!(net.output_layer[0].bias, 106);
    assert_eq!(net.output_layer[0].weights, vec![107, 108]);
    assert_eq!(net.output_layer[1].bias, 109);
    assert_eq!(net.output_layer[1].weights, vec![110, 111]);
    assert_eq!(net.names, names(&["0", "1"]));
}

#[test]
fn network_layers_feed_each_other() {
    let parameters = counting(count_parameters(3, 2, 4, 2).unwrap());
    assert_eq!(parameters.len(), 46);
    let net = Network::new(3, 2, 4, names(&["a", "b"]), &parameters).unwrap();
    assert_eq!(net.hidden_count(), 2);
    assert_eq!(net.fan_in(0), 3);
    assert_eq!(net.fan_in(1), 4);
    assert_eq!(net.fan_in(2), 4);
    assert_eq!(net.layer(0).len(), 4);
    assert_eq!(net.layer(1).len(), 4);
    assert_eq!(net.layer(2).len(), 2);
    for l in 0..3 {
        for neuron in net.layer(l).iter() {
            assert_eq!(neuron.weights.len(), net.fan_in(l));
        }
    }
    assert_eq!(net.layer(1)[0].bias, 116);
    assert_eq!(net.layer(2)[1].bias, 141);
    assert_eq!(net.layer(2)[1].weights, vec![142, 143, 144, 145]);
}

#[test]
fn network_without_hidden_layers() {
    let parameters = counting(6);
    let net = Network::new(2, 0, 0, names(&["0", "1"]), &parameters).unwrap();
    assert_eq!(net.hidden_count(), 0);
    assert_eq!(net.fan_in(0), 2);
    assert_eq!(net.output_layer[1].bias, 103);
    assert_eq!(net.output_layer[1].weights, vec![104, 105]);
    let ignored_width = Network::new(2, 0, 9, names(&["0", "1"]), &parameters).unwrap();
    assert_eq!(ignored_width.output_layer[1].weights, vec![104, 105]);
}

#[test]
fn network_rejects_repeated_names() {
    let parameters = counting(12);
    let made = Network::new(2, 1, 2, names(&["0", "0"]), &parameters);
    assert_eq!(made.unwrap_err(), NetworkError::DuplicateOutputName);
    let apart = Network::new(2, 1, 2, names(&["x", "y", "x"]), &parameters);
    assert_eq!(apart.unwrap_err(), NetworkError::DuplicateOutputName);
    let also_misshapen = Network::new(2, 1, 0, names(&["x", "x"]), &parameters);
    assert_eq!(also_misshapen.unwrap_err(), NetworkError::DuplicateOutputName);
}

#[test]
fn network_rejects_impossible_shapes() {
    let parameters = counting(12);
    let empty_layers = Network::new(2, 1, 0, names(&["0", "1"]), &parameters);
    assert_eq!(empty_layers.unwrap_err(), NetworkError::InvalidShape);
    let no_class = Network::new(2, 1, 2, names(&[]), &parameters);
    assert_eq!(no_class.unwrap_err(), NetworkError::InvalidShape);
}

#[test]
fn network_rejects_a_wrong_number_of_parameters() {
    let short = Network::new(2, 1, 2, names(&["0", "1"]), &counting(11));
    assert_eq!(short.unwrap_err(), NetworkError::DimensionMismatch);
    let long = Network::new(2, 1, 2, names(&["0", "1"]), &counting(13));
    assert_eq!(long.unwrap_err(), NetworkError::DimensionMismatch);
    let none = Network::new(2, 1, 2, names(&["0", "1"]), &counting(0));
    assert_eq!(none.unwrap_err(), NetworkError::DimensionMismatch);
    let huge = Network::new(2, usize::MAX, usize::MAX, names(&["0", "1"]), &counting(12));
    assert_eq!(huge.unwrap_err(), NetworkError::DimensionMismatch);
}

#[test]
fn column_picks_one_weight_of_each_neuron() {
    let parameters = counting(12);
    let net = Network::new(2, 1, 2, names(&["0", "1"]), &parameters).unwrap();
    assert_eq!(net.column(1, 0), vec![107, 110]);
    assert_eq!(net.column(1, 1), vec![108, 111]);
    assert_eq!(net.column(0, 0), vec![101, 104]);
    assert_eq!(net.column(0, 1), vec![102, 105]);
}

#[test]
fn duplicates_are_found_wherever_they_stand() {
    assert!(!has_duplicate(&names(&[])));
    assert!(!has_duplicate(&names(&["a"])));
    assert!(!has_duplicate(&names(&["a", "b", "c"])));
    assert!(has_duplicate(&names(&["a", "a"])));
    assert!(has_duplicate(&names(&["a", "b", "c", "b"])));
    assert!(!has_duplicate(&names(&["a", "A", ""])));
}

#[test]
fn first_max_prefers_the_lowest_position() {
    assert_eq!(first_max(&vec![3, 9, 9, 1]), 1);
    assert_eq!(first_max(&vec![7]), 0);
    assert_eq!(first_max(&vec![5, 5, 5]), 0);
    assert_eq!(first_max(&vec![1, 2, 3, 4]), 3);
    assert_eq!(first_max(&vec![4, 3, 2, 1]), 0);
    assert_eq!(first_max(&vec![0, u64::MAX, u64::MAX]), 1);
}

#[test]
fn activations_lie_strictly_between_zero_and_one() {
    assert_eq!(ONE, 1.0f64.to_bits());
    assert!(check_activation(0.5f64.to_bits()));
    assert!(check_activation(f64::MIN_POSITIVE.to_bits()));
    assert!(check_activation(1));
    assert!(check_activation(ONE - 1));
    assert!(!check_activation(0.0f64.to_bits()));
    assert!(!check_activation(1.0f64.to_bits()));
    assert!(!check_activation(1.5f64.to_bits()));
    assert!(!check_activation((-0.0f64).to_bits()));
    assert!(!check_activation((-0.5f64).to_bits()));
    assert!(!check_activation(f64::INFINITY.to_bits()));
    assert!(!check_activation(f64::NEG_INFINITY.to_bits()));
    assert!(!check_activation(f64::NAN.to_bits()));
}

#[test]
fn encodings_of_activations_are_ordered_as_the_reals() {
    let reals = [1e-300f64, 0.1, 0.25, 0.5, 0.75, 0.999_999];
    for pair in reals.windows(2) {
        assert!(pair[0] < pair[1]);
        assert!(pair[0].to_bits() < pair[1].to_bits());
    }
}

#[test]
fn copies_hold_the_same_codes() {
    assert_eq!(copy_codes(&vec![]), Vec::<u64>::new());
    assert_eq!(copy_codes(&vec![4, 0, u64::MAX]), vec![4, 0, u64::MAX]);
}

#[test]
fn series_keeps_inputs_and_answer() {
    let series = Series::new(vec![1, 2, 3], "seven".to_string());
    assert_eq!(series.inputs, vec![1, 2, 3]);
    assert_eq!(series.answer, "seven");
}

#[test]
fn settle_pulls_the_bounds_into_the_interval() {
    assert_eq!(settle(0.0f64.to_bits()), 1);
    assert_eq!(settle((-0.0f64).to_bits()), 1);
    assert_eq!(settle(MINUS_ZERO), 1);
    assert_eq!(settle(1.0f64.to_bits()), ONE - 1);
    assert!(f64::from_bits(settle(1.0f64.to_bits())) < 1.0);
    assert!(f64::from_bits(settle(0.0f64.to_bits())) > 0.0);
    for inside in [1, 0.25f64.to_bits(), 0.5f64.to_bits(), ONE - 1] {
        assert_eq!(settle(inside), inside);
        assert!(check_activation(settle(inside)));
    }
    for outside in [
        1.5f64.to_bits(),
        (-0.5f64).to_bits(),
        f64::INFINITY.to_bits(),
        f64::NEG_INFINITY.to_bits(),
        f64::NAN.to_bits(),
        ONE + 1,
        MINUS_ZERO + 1,
    ] {
        assert_eq!(settle(outside), outside);
        assert!(!check_activation(settle(outside)));
    }
    assert!(check_activation(settle(0)));
    assert!(check_activation(settle(ONE)));
}
