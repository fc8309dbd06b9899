use std::sync::Arc;

use sayiir::branch_results::{BranchOutputs, NamedBranchResults};
use sayiir::codec::{DecodeValue, Decoder, EncodeValue, Encoder, EnvelopeCodec};
use sayiir::error::BoxError;

struct Plain;

impl Encoder for Plain {}

impl Decoder for Plain {}

impl EncodeValue<u32> for Plain {
    fn encode_value(&self, value: &u32) -> Result<Vec<u8>, BoxError> {
        Ok(value.to_string().into_bytes())
    }
}

impl DecodeValue<u32> for Plain {
    fn decode_value(&self, bytes: &[u8]) -> Result<u32, BoxError> {
        let text = String::from_utf8_lossy(bytes);
        text.parse().map_err(|_| BoxError { message: format!("no number: {text}") })
    }
}

impl EnvelopeCodec for Plain {
    fn decode_string(&self, bytes: &[u8]) -> Result<String, BoxError> {
        Ok(String::from_utf8_lossy(bytes).into_owned())
    }

    fn encode_branch_envelope(&self, key: &str, result_bytes: &[u8]) -> Result<Vec<u8>, BoxError> {
        Ok([key.as_bytes(), b"=", result_bytes].concat())
    }

    fn encode_named_results(&self, results: &Vec<(String, Vec<u8>)>) -> Result<Vec<u8>, BoxError> {
        Ok(vec![results.len() as u8])
    }
}

#[test]
fn codec_calls_reach_the_values() {
    assert_eq!(Plain.encode(&17u32).unwrap(), b"17");
    let back: u32 = Plain.decode(b"17").unwrap();
    assert_eq!(back, 17);
    let refused: Result<u32, BoxError> = Plain.decode(b"x");
    assert_eq!(refused.unwrap_err().message, "no number: x");
}

#[test]
fn shared_codecs_encode_alike() {
    let shared = Arc::new(Plain);
    assert_eq!(shared.encode(&5u32).unwrap(), b"5");
    let back: u32 = shared.decode(b"5").unwrap();
    assert_eq!(back, 5);
    assert_eq!(shared.decode_string(b"key").unwrap(), "key");
    assert_eq!(shared.encode_branch_envelope("k", b"v").unwrap(), b"k=v");
    let lent = &Plain;
    assert_eq!(EnvelopeCodec::encode_branch_envelope(&lent, "k", b"v").unwrap(), b"k=v");
    let results = vec![("a".to_string(), vec![1]), ("b".to_string(), vec![2])];
    assert_eq!(EnvelopeCodec::encode_named_results(&lent, &results).unwrap(), vec![2]);
}

#[test]
fn branch_outputs_are_decoded_by_name() {
    let results = NamedBranchResults::new(vec![
        ("count".to_string(), b"3".to_vec()),
        ("bad".to_string(), b"no".to_vec()),
        ("count".to_string(), b"4".to_vec()),
    ]);
    let outputs = BranchOutputs::new(results.into_map(), Arc::new(Plain));
    assert_eq!(outputs.get::<u32>("count").unwrap(), 4);
    assert_eq!(outputs.get::<u32>("bad").unwrap_err().message, "no number: no");
    assert_eq!(outputs.get::<u32>("gone").unwrap_err().message, "Branch 'gone' not found");
    assert_eq!(outputs.branch_names(), vec!["bad", "count"]);
    assert_eq!(outputs.len(), 2);
    assert!(outputs.contains("bad"));
    assert!(!outputs.is_empty());
}
