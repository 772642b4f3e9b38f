use ark_ec::twisted_edwards::TECurveConfig;
use ark_ed25519::{EdwardsConfig, EdwardsProjective, Fr};
use ark_serialize::{CanonicalDeserialize, CanonicalSerialize};
use ark_std::UniformRand;
use rand::prelude::thread_rng;
use rand::Rng;
use volezk::block::{Block, Block128, Block256};
use volezk::ot::co15::{CO15Receiver, CO15Sender};
use volezk::ot::extension::iknp::{ot_ext_receive, ot_ext_receive_columns, ot_ext_send};
use volezk::ot::OTError;

fn random_scalar() -> [u8; 32] {
    let mut rng = thread_rng();
    let mut out = [0u8; 32];
    Fr::rand(&mut rng).serialize_compressed(&mut out[..]).unwrap();
    out
}

/// Runs one base transfer between the two parties, in memory.
fn transfer<T: Block>(
    sender: &CO15Sender,
    receiver: &CO15Receiver,
    choice: usize,
    values: &Vec<T>,
) -> T {
    let request = receiver.request(choice, random_scalar()).unwrap();
    let ciphertexts = sender.send(&request.message(), values).unwrap();
    assert_eq!(ciphertexts.len(), values.len());
    request.receive(&ciphertexts)
}

fn pair() -> (CO15Sender, CO15Receiver) {
    let sender = CO15Sender::setup(random_scalar()).unwrap();
    let receiver = CO15Receiver::setup(sender.setup_message()).unwrap();
    (sender, receiver)
}

#[test]
fn test_ot() {
    let (sender, receiver) = pair();
    let values = vec![Block128::from(5u128), Block128::from(6u128)];
    assert_eq!(transfer(&sender, &receiver, 0, &values), values[0]);
    assert_eq!(transfer(&sender, &receiver, 1, &values), values[1]);
}

#[test]
fn test_ot_block128() {
    let (sender, receiver) = pair();
    let values: Vec<Block128> = vec![Block128::from(1), Block128::from(100)];
    let result = transfer(&sender, &receiver, 1, &values);
    assert_eq!(result, values[1]);
}

#[test]
fn test_ot_block256() {
    // 1 out-of 5 OT with points on G
    let (sender, receiver) = pair();
    let mut rng = thread_rng();
    let b = EdwardsConfig::GENERATOR;
    let points: Vec<EdwardsProjective> = (0..5).map(|_| b * Fr::rand(&mut rng)).collect();
    let values: Vec<Block256> = points
        .iter()
        .map(|g| {
            let mut bytes = Vec::new();
            g.serialize_compressed(&mut bytes).unwrap();
            Block256::from_bytes(&bytes)
        })
        .collect();

    let res = transfer(&sender, &receiver, 3, &values);
    let g = EdwardsProjective::deserialize_compressed(res.as_bytes().as_slice()).unwrap();
    assert_eq!(g, points[3]);
}

#[test]
fn base_ot_chunked_payload() {
    let (sender, receiver) = pair();
    let values: Vec<Vec<Block128>> = (0..4u128)
        .map(|i| vec![Block128::from(i), Block128::from(i + 10), Block128::from(i + 20)])
        .collect();
    for c in 0..4 {
        assert_eq!(transfer(&sender, &receiver, c, &values), values[c]);
    }
}

#[test]
fn ciphertexts_hide_the_values() {
    let (sender, receiver) = pair();
    let values = vec![Block128::from(1u128), Block128::from(1u128)];
    let request = receiver.request(0, random_scalar()).unwrap();
    let ciphertexts = sender.send(&request.message(), &values).unwrap();
    assert_ne!(ciphertexts[0], values[0]);
    assert_ne!(ciphertexts[0], ciphertexts[1]);
    // the key of index 0 does not open index 1
    let wrong = volezk::ot::co15::CO15Receiver::setup(sender.setup_message())
        .unwrap()
        .request(1, random_scalar())
        .unwrap()
        .receive(&ciphertexts);
    assert_ne!(wrong, values[1]);
}

#[test]
fn setups_are_fresh() {
    let first = CO15Sender::setup(random_scalar()).unwrap();
    let second = CO15Sender::setup(random_scalar()).unwrap();
    assert_ne!(first.setup_message(), second.setup_message());

    let mut one = [0u8; 32];
    one[0] = 1;
    let mut two = [0u8; 32];
    two[0] = 2;
    let a = CO15Sender::setup(one).unwrap();
    let b = CO15Sender::setup(two).unwrap();
    assert_ne!(a.setup_message(), b.setup_message());
    assert_ne!(a.setup_message(), one);
}

#[test]
fn receiver_rejects_a_bad_point() {
    assert!(matches!(
        CO15Receiver::setup([0xffu8; 32]),
        Err(OTError::Serialize { .. })
    ));
}

#[test]
fn bad_scalars_and_points_are_errors() {
    assert!(matches!(
        CO15Sender::setup([0xffu8; 32]),
        Err(OTError::Serialize { .. })
    ));
    let (sender, receiver) = pair();
    assert!(matches!(
        receiver.request(0, [0xffu8; 32]),
        Err(OTError::Serialize { .. })
    ));
    let values = vec![Block128::from(1u128)];
    assert!(matches!(
        sender.send(&[0xffu8; 32], &values),
        Err(OTError::Serialize { .. })
    ));
}

/// Runs the extension between the two parties, in memory, with `k` base
/// transfers.
fn extend<T: Block + Clone>(choices: &Vec<bool>, values: &Vec<(T, T)>, k: usize) -> Vec<T> {
    let mut rng = thread_rng();
    let m = choices.len();
    // the receiving party of the extension sends the base transfers
    let (base_sender, base_receiver) = pair();
    let t: Vec<Vec<bool>> = (0..m).map(|_| (0..k).map(|_| rng.gen::<bool>()).collect()).collect();
    let columns = ot_ext_receive_columns(choices, &t, k);
    let s: Vec<bool> = (0..k).map(|_| rng.gen::<bool>()).collect();
    let received: Vec<Vec<Block128>> = (0..k)
        .map(|c| transfer(&base_sender, &base_receiver, s[c] as usize, &columns[c]))
        .collect();
    let ciphertexts = ot_ext_send(&s, &received, values).unwrap();
    ot_ext_receive(choices, &t, &ciphertexts)
}

#[test]
fn test_ot_extension() {
    let choices = vec![true, false, true, true, false, true, true, false, true, false];
    let values: Vec<(Block128, Block128)> =
        (0..10).map(|_| (Block128::from(1), Block128::from(100))).collect();

    let result = extend(&choices, &values, 128);

    // choice for: true, false, true, true, false, true, true, false, true, false,
    let expected_result = vec![
        Block128::from(100),
        Block128::from(1),
        Block128::from(100),
        Block128::from(100),
        Block128::from(1),
        Block128::from(100),
        Block128::from(100),
        Block128::from(1),
        Block128::from(100),
        Block128::from(1),
    ];
    assert_eq!(result, expected_result);
}

#[test]
fn extension_distinct_values_many_rows() {
    let mut rng = thread_rng();
    let m = 37;
    let choices: Vec<bool> = (0..m).map(|_| rng.gen::<bool>()).collect();
    let values: Vec<(Block256, Block256)> = (0..m as u8)
        .map(|i| (Block256::from([i; 32]), Block256::from([i + 100; 32])))
        .collect();
    let result = extend(&choices, &values, 16);
    for i in 0..m {
        let want = if choices[i] { values[i].1 } else { values[i].0 };
        assert_eq!(result[i], want);
    }
}

#[test]
fn extension_with_no_rows() {
    let result = extend::<Block128>(&vec![], &vec![], 8);
    assert!(result.is_empty());
}

#[test]
fn extension_columns_are_packed() {
    let choices = vec![true, false, true];
    let t = vec![vec![false, true], vec![false, false], vec![true, true]];
    let columns = ot_ext_receive_columns(&choices, &t, 2);
    assert_eq!(columns.len(), 2);
    // column 0 of T is 0,0,1 and of U = B xor T is 1,0,0
    assert_eq!(columns[0][0].as_bytes()[0], 0b0010_0000);
    assert_eq!(columns[0][1].as_bytes()[0], 0b1000_0000);
    // column 1 of T is 1,0,1 and of U is 0,0,0
    assert_eq!(columns[1][0].as_bytes()[0], 0b1010_0000);
    assert_eq!(columns[1][1].as_bytes()[0], 0);
    assert_eq!(columns[0][0].len(), 1);
}

#[test]
fn extension_rejects_short_columns() {
    let values: Vec<(Block128, Block128)> =
        (0..20).map(|_| (Block128::from(1), Block128::from(2))).collect();
    let s = vec![true, false];
    let received = vec![vec![Block128::from(0u128)], Vec::new()];
    assert!(matches!(
        ot_ext_send(&s, &received, &values),
        Err(OTError::Framing)
    ));
}
