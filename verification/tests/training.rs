use perceptron::backward::{Backward, ErrorTask};
use perceptron::error::NetworkError;
use perceptron::forward::Forward;
use perceptron::network::{count_parameters, Network};
use perceptron::neuron::Neuron;
use perceptron::scalar::{check_initial, check_initials, settle, HALF, MINUS_HALF, MINUS_ZERO};
use perceptron::series::Series;
use perceptron::trainer::{Accuracy, Step, TrainingReport};
use perceptron::update::Adjustment;

fn decode(bits: u64) -> f64 {
    f64::from_bits(bits)
}

fn encode(value: f64) -> u64 {
    value.to_bits()
}

fn codes(values: &[f64]) -> Vec<u64> {
    values.iter().map(|value| encode(*value)).collect()
}

fn activate(neuron: &Neuron, feed: &Vec<u64>) -> u64 {
    let mut sum = 0.0;
    for (input, weight) in feed.iter().zip(neuron.weights.iter()) {
        sum += decode(*input) * decode(*weight);
    }
    let z = sum + decode(neuron.bias);
    encode(1.0 / (1.0 + (-z).exp()))
}

fn error_signal(task: &ErrorTask) -> u64 {
    match task {
        ErrorTask::Output { activation, target } => {
            let out = decode(*activation);
            let wanted = if *target { 1.0 } else { 0.0 };
            encode((wanted - out) * out * (1.0 - out))
        }
        ErrorTask::Hidden { activation, errors, weights } => {
            let out = decode(*activation);
            let mut sum = 0.0;
            for (error, weight) in errors.iter().zip(weights.iter()) {
                sum += decode(*error) * decode(*weight);
            }
            encode(sum * out * (1.0 - out))
        }
    }
}

fn adjusted(task: Adjustment) -> u64 {
    match task {
        Adjustment::Bias { bias, error, rate } => encode(decode(bias) + decode(rate) * decode(error)),
        Adjustment::Weight { weight, error, input, rate } => {
            encode(decode(weight) + decode(error) * decode(input) * decode(rate))
        }
    }
}

fn infer(net: &Network, inputs: &[f64]) -> Result<Forward, NetworkError> {
    let mut pass = net.forward(codes(inputs))?;
    while !pass.is_complete(net) {
        let activation = {
            let (neuron, feed) = pass.pending(net);
            activate(neuron, feed)
        };
        pass.supply(net, activation)?;
    }
    Ok(pass)
}

fn classify(net: &Network, inputs: &[f64]) -> String {
    let pass = infer(net, inputs).unwrap();
    net.run(&pass).unwrap().clone()
}

fn propagate(net: &Network, forward: Forward, answer: &str) -> Result<Backward, NetworkError> {
    let mut pass = net.backward(forward, answer.to_string())?;
    while !pass.is_complete(net) {
        let error = error_signal(&pass.pending(net));
        pass.supply(net, error)?;
    }
    Ok(pass)
}

fn train_on_example(net: &mut Network, series: &Series, rate: f64) -> Result<Backward, NetworkError> {
    let inputs: Vec<f64> = series.inputs.iter().map(|input| decode(*input)).collect();
    let forward = infer(net, &inputs)?;
    let backward = propagate(net, forward, &series.answer)?;
    let kept = backward.clone();
    let mut update = net.update(backward, encode(rate))?;
    while !update.is_complete(net) {
        let value = adjusted(update.pending(net));
        update.supply(net, value)?;
    }
    net.update_weights(update)?;
    Ok(kept)
}

fn score(net: &Network, data: &Vec<Series>) -> Result<Accuracy, NetworkError> {
    let mut passes = Vec::new();
    for series in data.iter() {
        let inputs: Vec<f64> = series.inputs.iter().map(|input| decode(*input)).collect();
        passes.push(infer(net, &inputs)?);
    }
    net.err_percentage(&passes, data)
}

fn train(
    net: &mut Network,
    data: &Vec<Series>,
    rate: f64,
    target: f64,
    log_every: usize,
    patience: usize,
    limit: Option<usize>,
) -> Result<(TrainingReport, Vec<Accuracy>), NetworkError> {
    let mut run = net.train(data, log_every, patience, limit)?;
    let mut seen = Vec::new();
    loop {
        match run.next() {
            Step::Train { example } => {
                train_on_example(net, &data[example], rate)?;
                run.trained()?;
            }
            Step::Score => {
                let accuracy = score(net, data)?;
                let share = accuracy.correct as f64 / accuracy.total as f64;
                let report = run.scored(accuracy.correct, share >= target)?;
                assert_eq!(report.accuracy, accuracy);
                seen.push(accuracy);
            }
            Step::Finish { report } => return Ok((report, seen)),
        }
    }
}

fn drawn(count: usize, seed: u64) -> Vec<u64> {
    let mut state = seed;
    let mut parameters = Vec::new();
    for _ in 0..count {
        state = state.wrapping_mul(6364136223846793005).wrapping_add(1442695040888963407);
        parameters.push(encode((state >> 11) as f64 / (1u64 << 53) as f64 - 0.5));
    }
    parameters
}

fn network(inputs: usize, hidden: usize, width: usize, names: &[&str], seed: u64) -> Network {
    let count = count_parameters(inputs, hidden, width, names.len()).unwrap();
    let names: Vec<String> = names.iter().map(|name| name.to_string()).collect();
    Network::new(inputs, hidden, width, names, &drawn(count, seed)).unwrap()
}

fn series(inputs: &[f64], answer: &str) -> Series {
    Series::new(codes(inputs), answer.to_string())
}

fn and_gate() -> Vec<Series> {
    vec![
        series(&[0.0, 0.0], "0"),
        series(&[1.0, 0.0], "0"),
        series(&[0.0, 1.0], "0"),
        series(&[1.0, 1.0], "1"),
    ]
}

fn xor_gate() -> Vec<Series> {
    vec![
        series(&[0.0, 0.0], "0"),
        series(&[1.0, 0.0], "1"),
        series(&[0.0, 1.0], "1"),
        series(&[1.0, 1.0], "0"),
    ]
}

#[test]
pub fn test_and() {
    let training_data = and_gate();

    let mut network = network(2, 1, 2, &["0", "1"], 1);

    let (report, _) = train(&mut network, &training_data, 1.0, 0.9, 1, 1, Some(20_000)).unwrap();
    assert!(report.converged);
    assert_eq!(report.accuracy, Accuracy { correct: 4, total: 4 });
}

#[test]
pub fn test_xor() {
    let training_data = xor_gate();

    let mut network = network(2, 1, 2, &["0", "1"], 1);

    let (report, _) =
        train(&mut network, &training_data, 0.05, 0.9, 1000, 1, Some(100_000)).unwrap();
    assert!(report.converged);
    assert_eq!(report.accuracy, Accuracy { correct: 4, total: 4 });
}

#[test]
fn drawn_parameters_lie_in_the_half_open_interval() {
    let parameters = drawn(1000, 7);
    assert!(check_initials(&parameters));
    for parameter in parameters {
        let value = decode(parameter);
        assert!(-0.5 <= value && value < 0.5);
        assert!(check_initial(parameter));
    }
}

#[test]
fn initial_parameters_are_told_by_their_encoding() {
    for inside in [-0.5, -0.25, -1e-300, -0.0, 0.0, 1e-300, 0.25, 0.499_999_999] {
        assert!(check_initial(encode(inside)), "{}", inside);
    }
    let below_half = f64::from_bits(encode(0.5) - 1);
    assert!(below_half < 0.5);
    assert!(check_initial(encode(below_half)));
    let below_minus_half = f64::from_bits(encode(-0.5) + 1);
    assert!(below_minus_half < -0.5);
    assert!(!check_initial(encode(below_minus_half)));
    for outside in [0.5, 0.75, 1.0, -0.75, -1.0, 1e300, -1e300] {
        assert!(!check_initial(encode(outside)), "{}", outside);
    }
    assert!(!check_initial(encode(f64::NAN)));
    assert!(!check_initial(encode(f64::INFINITY)));
    assert!(!check_initial(encode(f64::NEG_INFINITY)));
    assert!(check_initials(&codes(&[])));
    assert!(check_initials(&codes(&[0.1, -0.5, 0.0])));
    assert!(!check_initials(&codes(&[0.1, 0.5, 0.0])));
    assert_eq!(HALF, encode(0.5));
    assert_eq!(MINUS_HALF, encode(-0.5));
    assert_eq!(MINUS_ZERO, encode(-0.0));
}

#[test]
fn inference_checks_the_number_of_inputs() {
    let net = network(2, 1, 4, &["0", "1"], 3);
    assert_eq!(infer(&net, &[0.0, 0.0, 0.0]).unwrap_err(), NetworkError::DimensionMismatch);
    let pass = infer(&net, &[0.0, 0.0]).unwrap();
    assert!(pass.is_complete(&net));
    assert!(net.run(&pass).is_ok());
}

#[test]
fn inference_is_repeatable_and_changes_nothing() {
    let net = network(3, 2, 4, &["a", "b", "c"], 5);
    let before = net.clone();
    let first = infer(&net, &[0.25, -1.5, 3.0]).unwrap();
    let second = infer(&net, &[0.25, -1.5, 3.0]).unwrap();
    assert_eq!(first, second);
    assert_eq!(net.run_with_info(&first).unwrap(), net.run_with_info(&second).unwrap());
    assert_eq!(net, before);
}

#[test]
fn outputs_lie_strictly_between_zero_and_one() {
    let mut net = network(2, 1, 3, &["0", "1"], 11);
    let points = [[0.0, 0.0], [1.0, 0.0], [0.0, 1.0], [1.0, 1.0], [-7.5, 12.0], [30.0, 30.0]];
    for point in points.iter() {
        let pass = infer(&net, point).unwrap();
        let (_, outputs) = net.run_with_info(&pass).unwrap();
        assert_eq!(outputs.len(), 2);
        for output in outputs {
            assert!(0.0 < decode(output) && decode(output) < 1.0);
        }
    }
    train(&mut net, &and_gate(), 0.5, 1.0, 1, 1, Some(5_000)).unwrap();
    for point in points[..4].iter() {
        let pass = infer(&net, point).unwrap();
        for layer in pass.layers.iter() {
            for activation in layer.iter() {
                assert!(0.0 < decode(*activation) && decode(*activation) < 1.0);
            }
        }
    }
}

#[test]
fn the_and_gate_is_learned() {
    let mut net = network(2, 1, 2, &["0", "1"], 2);
    let (report, _) = train(&mut net, &and_gate(), 0.5, 1.0, 1, 1, Some(20_000)).unwrap();
    assert!(report.converged);
    assert_eq!(classify(&net, &[1.0, 1.0]), "1");
    assert_eq!(classify(&net, &[0.0, 0.0]), "0");
    assert_eq!(classify(&net, &[1.0, 0.0]), "0");
    assert_eq!(classify(&net, &[0.0, 1.0]), "0");
}

#[test]
fn the_and_gate_is_learned_without_a_hidden_layer() {
    let mut net = network(2, 0, 0, &["0", "1"], 4);
    let (report, _) = train(&mut net, &and_gate(), 0.5, 1.0, 1, 1, Some(20_000)).unwrap();
    assert!(report.converged);
    assert_eq!(classify(&net, &[1.0, 1.0]), "1");
    assert_eq!(classify(&net, &[0.0, 1.0]), "0");
}

#[test]
fn xor_is_out_of_reach_without_a_hidden_layer() {
    let mut net = network(2, 0, 0, &["0", "1"], 3);
    let (report, seen) = train(&mut net, &xor_gate(), 0.5, 1.0, 1, 1, Some(3_000)).unwrap();
    assert!(!report.converged);
    assert_eq!(report.epochs, 3_000);
    assert_eq!(seen.len(), 3_000);
    for accuracy in seen {
        assert!(accuracy.correct < 4);
    }
}

#[test]
fn xor_is_learned_with_a_hidden_layer() {
    let mut net = network(2, 1, 4, &["0", "1"], 3);
    let (report, _) = train(&mut net, &xor_gate(), 0.5, 1.0, 1, 1, Some(60_000)).unwrap();
    assert!(report.converged);
    assert_eq!(classify(&net, &[0.0, 0.0]), "0");
    assert_eq!(classify(&net, &[1.0, 0.0]), "1");
    assert_eq!(classify(&net, &[0.0, 1.0]), "1");
    assert_eq!(classify(&net, &[1.0, 1.0]), "0");
}

#[test]
fn the_accuracy_of_every_epoch_is_a_share() {
    let mut net = network(2, 1, 2, &["0", "1"], 6);
    let (report, seen) = train(&mut net, &xor_gate(), 0.3, 1.0, 1, 2, Some(200)).unwrap();
    assert!(report.epochs <= 200);
    assert_eq!(seen.len(), report.epochs);
    for accuracy in seen {
        assert_eq!(accuracy.total, 4);
        assert!(accuracy.correct <= accuracy.total);
        let share = accuracy.correct as f64 / accuracy.total as f64;
        assert!(0.0 <= share && share <= 1.0);
    }
}

#[test]
fn training_holds_the_target_for_as_long_as_asked() {
    let mut net = network(2, 1, 2, &["0", "1"], 2);
    let (report, seen) = train(&mut net, &and_gate(), 0.5, 1.0, 1, 5, Some(20_000)).unwrap();
    assert!(report.converged);
    assert!(seen.len() >= 5);
    for accuracy in seen[seen.len() - 5..].iter() {
        assert_eq!(accuracy.correct, 4);
    }
    assert!(seen[seen.len() - 6].correct < 4);
}

#[test]
fn error_signals_come_from_the_weights_before_the_update() {
    let mut net = network(2, 1, 3, &["0", "1"], 9);
    let before = net.clone();
    let example = series(&[1.0, 0.0], "1");
    let pass = train_on_example(&mut net, &example, 0.5).unwrap();
    assert_ne!(net, before);

    let hidden: Vec<f64> = pass.forward.layers[0].iter().map(|a| decode(*a)).collect();
    let outputs: Vec<f64> = pass.forward.layers[1].iter().map(|a| decode(*a)).collect();
    let output_errors: Vec<f64> = vec![
        (0.0 - outputs[0]) * outputs[0] * (1.0 - outputs[0]),
        (1.0 - outputs[1]) * outputs[1] * (1.0 - outputs[1]),
    ];
    assert_eq!(pass.layers[0], codes(&output_errors));

    let by_hand = |weights_of: &Network| -> Vec<u64> {
        (0..3)
            .map(|i| {
                let mut sum = 0.0;
                for j in 0..2 {
                    sum += output_errors[j] * decode(weights_of.output_layer[j].weights[i]);
                }
                encode(sum * hidden[i] * (1.0 - hidden[i]))
            })
            .collect()
    };
    assert_eq!(pass.layers[1], by_hand(&before));
    assert_ne!(pass.layers[1], by_hand(&net));

    let hidden_errors: Vec<f64> = pass.layers[1].iter().map(|e| decode(*e)).collect();
    for j in 0..2 {
        let old = &before.output_layer[j];
        let new = &net.output_layer[j];
        assert_eq!(decode(new.bias), decode(old.bias) + 0.5 * output_errors[j]);
        for i in 0..3 {
            assert_eq!(
                decode(new.weights[i]),
                decode(old.weights[i]) + output_errors[j] * hidden[i] * 0.5
            );
        }
    }
    for i in 0..3 {
        let old = &before.hidden_layers[0][i];
        let new = &net.hidden_layers[0][i];
        assert_eq!(decode(new.bias), decode(old.bias) + 0.5 * hidden_errors[i]);
        assert_eq!(decode(new.weights[0]), decode(old.weights[0]) + hidden_errors[i] * 1.0 * 0.5);
        assert_eq!(decode(new.weights[1]), decode(old.weights[1]) + hidden_errors[i] * 0.0 * 0.5);
    }
    assert_eq!(net.names, before.names);
}

#[test]
fn a_saturated_neuron_stops_the_example() {
    let names: Vec<String> = vec!["0".to_string(), "1".to_string()];
    let parameters = codes(&[0.25, 0.0, 0.0, 0.1, 0.2, 0.3]);
    let mut net = Network::new(2, 0, 0, names, &parameters).unwrap();
    assert!(infer(&net, &[1.0, 1.0]).is_ok());
    net.output_layer[0].bias = encode(1000.0);
    let before = net.clone();
    assert_eq!(infer(&net, &[1.0, 1.0]).unwrap_err(), NetworkError::NumericInstability);
    let example = series(&[1.0, 1.0], "1");
    assert_eq!(
        train_on_example(&mut net, &example, 0.5).unwrap_err(),
        NetworkError::NumericInstability
    );
    assert_eq!(net, before);
    let data = vec![example];
    assert_eq!(
        train(&mut net, &data, 0.5, 1.0, 1, 1, Some(10)).unwrap_err(),
        NetworkError::NumericInstability
    );
    assert_eq!(net, before);
}

#[test]
fn an_activation_that_is_no_number_stops_the_example() {
    let names: Vec<String> = vec!["0".to_string()];
    let parameters = codes(&[-0.5, 0.25]);
    let mut net = Network::new(1, 0, 0, names, &parameters).unwrap();
    assert!(infer(&net, &[1.0]).is_ok());
    net.output_layer[0].bias = encode(f64::NAN);
    assert_eq!(infer(&net, &[1.0]).unwrap_err(), NetworkError::NumericInstability);
    net.output_layer[0].bias = encode(0.0);
    net.output_layer[0].weights[0] = encode(f64::INFINITY);
    assert_eq!(infer(&net, &[1.0]).unwrap_err(), NetworkError::NumericInstability);
    assert_eq!(infer(&net, &[-1.0]).unwrap_err(), NetworkError::NumericInstability);
}

#[test]
fn training_needs_examples_that_fit() {
    let mut net = network(2, 1, 2, &["0", "1"], 1);
    let before = net.clone();
    let none: Vec<Series> = Vec::new();
    assert_eq!(
        train(&mut net, &none, 0.5, 1.0, 1, 1, Some(10)).unwrap_err(),
        NetworkError::EmptyTrainingSet
    );
    let mut data = and_gate();
    data.push(series(&[1.0, 1.0, 1.0], "1"));
    assert_eq!(
        train(&mut net, &data, 0.5, 1.0, 1, 1, Some(10)).unwrap_err(),
        NetworkError::DimensionMismatch
    );
    assert_eq!(net, before);
}

#[test]
fn a_settled_activation_keeps_a_saturated_example_going() {
    let names: Vec<String> = vec!["0".to_string(), "1".to_string()];
    let parameters = codes(&[0.25, 0.4, 0.4, -0.25, -0.4, -0.4]);
    let net = Network::new(2, 0, 0, names, &parameters).unwrap();
    let inputs = [1000.0, 1000.0];
    assert_eq!(infer(&net, &inputs).unwrap_err(), NetworkError::NumericInstability);

    let mut pass = net.forward(codes(&inputs)).unwrap();
    while !pass.is_complete(&net) {
        let activation = {
            let (neuron, feed) = pass.pending(&net);
            activate(neuron, feed)
        };
        pass.supply(&net, settle(activation)).unwrap();
    }
    let (name, outputs) = net.run_with_info(&pass).unwrap();
    assert_eq!(name, "0");
    assert_eq!(outputs, vec![encode(1.0) - 1, 1]);
    for output in outputs {
        assert!(0.0 < decode(output) && decode(output) < 1.0);
    }
}
