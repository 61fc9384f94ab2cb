//! Value types: generation options and the service's result records.

use vstd::prelude::*;
use vstd::string::StringExecFns;
use crate::errors::QRNGError;
use crate::json::{
    clone_fields, distinct_keys, fields_view, get_field, lemma_fields_view, obj_lookup,
    unique_keys, JsonData, JsonValue,
};

verus! {

/// Options for one entropy-generation request.  Every field is independently
/// optional; absent fields fall back to the service defaults when the query
/// string is built (`bytes` to 32, `format` to "hex").
#[derive(Debug)]
pub struct GenerateOptions {
    pub bytes: Option<u32>,
    pub format: Option<String>,
    pub method: Option<String>,
    pub signature_type: Option<String>,
}

/// The characters of an optional string.
pub open spec fn opt_str_view(o: Option<String>) -> Option<Seq<char>> {
    match o {
        Some(s) => Some(s@),
        None => None,
    }
}

fn clone_opt_string(o: &Option<String>) -> (r: Option<String>)
    ensures
        opt_str_view(r) == opt_str_view(*o),
{
    match o {
        Some(s) => Some(s.clone()),
        None => None,
    }
}

impl Clone for GenerateOptions {
    /// A copy whose fields hold the same values.
    fn clone(&self) -> (r: Self)
        ensures
            r.bytes == self.bytes,
            opt_str_view(r.format) == opt_str_view(self.format),
            opt_str_view(r.method) == opt_str_view(self.method),
            opt_str_view(r.signature_type) == opt_str_view(self.signature_type),
    {
        GenerateOptions {
            bytes: self.bytes,
            format: clone_opt_string(&self.format),
            method: clone_opt_string(&self.method),
            signature_type: clone_opt_string(&self.signature_type),
        }
    }
}

impl GenerateOptions {
    /// Fresh options with every field absent.
    pub fn new() -> (r: Self)
        ensures
            r.bytes is None,
            r.format is None,
            r.method is None,
            r.signature_type is None,
    {
        GenerateOptions { bytes: None, format: None, method: None, signature_type: None }
    }

    /// Request a specific number of bytes.
    pub fn bytes(self, bytes: u32) -> (r: Self)
        ensures
            r.bytes == Some(bytes),
            r.format == self.format,
            r.method == self.method,
            r.signature_type == self.signature_type,
    {
        GenerateOptions { bytes: Some(bytes), ..self }
    }

    /// Request a specific output format.
    pub fn format(self, format: String) -> (r: Self)
        ensures
            r.bytes == self.bytes,
            r.format == Some(format),
            r.method == self.method,
            r.signature_type == self.signature_type,
    {
        GenerateOptions { format: Some(format), ..self }
    }

    /// Request a specific generation method.
    pub fn method(self, method: String) -> (r: Self)
        ensures
            r.bytes == self.bytes,
            r.format == self.format,
            r.method == Some(method),
            r.signature_type == self.signature_type,
    {
        GenerateOptions { method: Some(method), ..self }
    }

    /// Request a specific signature algorithm.
    pub fn signature_type(self, sig_type: String) -> (r: Self)
        ensures
            r.bytes == self.bytes,
            r.format == self.format,
            r.method == self.method,
            r.signature_type == Some(sig_type),
    {
        GenerateOptions { signature_type: Some(sig_type), ..self }
    }
}

impl Default for GenerateOptions {
    fn default() -> (r: Self)
        ensures
            r.bytes is None,
            r.format is None,
            r.method is None,
            r.signature_type is None,
    {
        GenerateOptions::new()
    }
}

/// The model of an entropy record: every field as a character sequence, the
/// metadata as a sequence of key/value models.
#[verifier::ext_equal]
pub ghost struct EntropyData {
    pub data: Seq<char>,
    pub proof_id: Seq<char>,
    pub signature: Seq<char>,
    pub public_key: Seq<char>,
    pub signature_type: Seq<char>,
    pub metadata: Seq<(Seq<char>, JsonData)>,
}

/// One successful entropy generation: the generated data (encoded per the
/// requested format), the proof identifier, the signature, the public key,
/// the signature algorithm, and the open-ended metadata mapping.
#[derive(Debug)]
pub struct EntropyResult {
    pub data: String,
    pub proof_id: String,
    pub signature: String,
    pub public_key: String,
    pub signature_type: String,
    pub metadata: Vec<(String, JsonValue)>,
}

impl View for EntropyResult {
    type V = EntropyData;

    open spec fn view(&self) -> EntropyData {
        EntropyData {
            data: self.data@,
            proof_id: self.proof_id@,
            signature: self.signature@,
            public_key: self.public_key@,
            signature_type: self.signature_type@,
            metadata: fields_view(self.metadata@),
        }
    }
}

impl Clone for EntropyResult {
    /// A deep copy with the same model as the original.
    fn clone(&self) -> (r: Self)
        ensures
            r@ == self@,
    {
        let r = EntropyResult {
            data: self.data.clone(),
            proof_id: self.proof_id.clone(),
            signature: self.signature.clone(),
            public_key: self.public_key.clone(),
            signature_type: self.signature_type.clone(),
            metadata: clone_fields(&self.metadata),
        };
        assert(r@ =~= self@);
        r
    }
}

/// The model of a health report: the status label, the open-ended metrics
/// mapping, and the timestamp.
#[verifier::ext_equal]
pub ghost struct HealthData {
    pub status: Seq<char>,
    pub metrics: Seq<(Seq<char>, JsonData)>,
    pub timestamp: Seq<char>,
}

/// The service's health report: a status label, an open-ended metrics
/// mapping, and a timestamp string.
#[derive(Debug)]
pub struct HealthStatus {
    pub status: String,
    pub metrics: Vec<(String, JsonValue)>,
    pub timestamp: String,
}

impl View for HealthStatus {
    type V = HealthData;

    open spec fn view(&self) -> HealthData {
        HealthData {
            status: self.status@,
            metrics: fields_view(self.metrics@),
            timestamp: self.timestamp@,
        }
    }
}

impl Clone for HealthStatus {
    /// A deep copy with the same model as the original.
    fn clone(&self) -> (r: Self)
        ensures
            r@ == self@,
    {
        let r = HealthStatus {
            status: self.status.clone(),
            metrics: clone_fields(&self.metrics),
            timestamp: self.timestamp.clone(),
        };
        assert(r@ =~= self@);
        r
    }
}

/// The string bound to `key`, if the object binds `key` to a string.
pub open spec fn lookup_str(fields: Seq<(Seq<char>, JsonData)>, key: Seq<char>) -> Option<
    Seq<char>,
> {
    match obj_lookup(fields, key) {
        Some(JsonData::Str(s)) => Some(s),
        _ => None,
    }
}

/// Whether a JSON value has the shape of an entropy record: an object whose
/// five required fields are strings, and whose `metadata` field, if present,
/// is an object with distinct keys.
pub open spec fn entropy_shape_ok(d: JsonData) -> bool {
    match d {
        JsonData::Obj(fs) => {
            &&& lookup_str(fs, "data"@) is Some
            &&& lookup_str(fs, "proofId"@) is Some
            &&& lookup_str(fs, "signature"@) is Some
            &&& lookup_str(fs, "publicKey"@) is Some
            &&& lookup_str(fs, "signatureType"@) is Some
            &&& match obj_lookup(fs, "metadata"@) {
                None => true,
                Some(JsonData::Obj(m)) => unique_keys(m),
                Some(_) => false,
            }
        },
        _ => false,
    }
}

/// The metadata mapping of an entropy record's JSON value, empty when the
/// field is absent.
pub open spec fn entropy_json_metadata(d: JsonData) -> Seq<(Seq<char>, JsonData)> {
    match d {
        JsonData::Obj(fs) => match obj_lookup(fs, "metadata"@) {
            Some(JsonData::Obj(m)) => m,
            _ => Seq::empty(),
        },
        _ => Seq::empty(),
    }
}

pub open spec fn str_or_empty(o: Option<Seq<char>>) -> Seq<char> {
    match o {
        Some(s) => s,
        None => Seq::empty(),
    }
}

/// The entropy record a well-shaped JSON value decodes to.
pub open spec fn decoded_entropy(d: JsonData) -> EntropyData
    recommends
        entropy_shape_ok(d),
{
    let fs = match d {
        JsonData::Obj(fs) => fs,
        _ => Seq::empty(),
    };
    EntropyData {
        data: str_or_empty(lookup_str(fs, "data"@)),
        proof_id: str_or_empty(lookup_str(fs, "proofId"@)),
        signature: str_or_empty(lookup_str(fs, "signature"@)),
        public_key: str_or_empty(lookup_str(fs, "publicKey"@)),
        signature_type: str_or_empty(lookup_str(fs, "signatureType"@)),
        metadata: entropy_json_metadata(d),
    }
}

/// The canonical JSON encoding of an entropy record.
pub open spec fn entropy_json(e: EntropyData) -> JsonData {
    JsonData::Obj(
        seq![
            ("data"@, JsonData::Str(e.data)),
            ("proofId"@, JsonData::Str(e.proof_id)),
            ("signature"@, JsonData::Str(e.signature)),
            ("publicKey"@, JsonData::Str(e.public_key)),
            ("signatureType"@, JsonData::Str(e.signature_type)),
            ("metadata"@, JsonData::Obj(e.metadata)),
        ],
    )
}

fn decode_error(what: &str) -> (e: QRNGError)
    ensures
        e is Decode,
{
    QRNGError::Decode(what.to_owned())
}

/// Decodes a JSON value into an entropy record.  Succeeds exactly on
/// well-shaped values; the five required fields are taken as they stand, and
/// an absent `metadata` field becomes the empty mapping.
pub fn decode_entropy_result(v: &JsonValue) -> (r: Result<EntropyResult, QRNGError>)
    ensures
        r is Ok <==> entropy_shape_ok(v@),
        r matches Ok(er) ==> er@ == decoded_entropy(v@),
        r matches Err(e) ==> e is Decode,
{
    let fields = match v {
        JsonValue::Obj(fields) => fields,
        _ => {
            return Err(decode_error("expected a JSON object"));
        },
    };
    let data = match get_field(fields, "data") {
        Some(JsonValue::Str(s)) => s.clone(),
        _ => {
            return Err(decode_error("missing or non-string data field"));
        },
    };
    let proof_id = match get_field(fields, "proofId") {
        Some(JsonValue::Str(s)) => s.clone(),
        _ => {
            return Err(decode_error("missing or non-string proofId field"));
        },
    };
    let signature = match get_field(fields, "signature") {
        Some(JsonValue::Str(s)) => s.clone(),
        _ => {
            return Err(decode_error("missing or non-string signature field"));
        },
    };
    let public_key = match get_field(fields, "publicKey") {
        Some(JsonValue::Str(s)) => s.clone(),
        _ => {
            return Err(decode_error("missing or non-string publicKey field"));
        },
    };
    let signature_type = match get_field(fields, "signatureType") {
        Some(JsonValue::Str(s)) => s.clone(),
        _ => {
            return Err(decode_error("missing or non-string signatureType field"));
        },
    };
    let metadata = match get_field(fields, "metadata") {
        None => Vec::new(),
        Some(JsonValue::Obj(m)) => {
            if !distinct_keys(m) {
                return Err(decode_error("duplicate metadata keys"));
            }
            clone_fields(m)
        },
        Some(_) => {
            return Err(decode_error("non-object metadata field"));
        },
    };
    let er = EntropyResult { data, proof_id, signature, public_key, signature_type, metadata };
    assert(er@ =~= decoded_entropy(v@));
    Ok(er)
}

/// Encodes an entropy record as its canonical JSON value.
pub fn encode_entropy_result(er: &EntropyResult) -> (v: JsonValue)
    ensures
        v@ == entropy_json(er@),
{
    let mut fields: Vec<(String, JsonValue)> = Vec::new();
    fields.push((String::from_str("data"), JsonValue::Str(er.data.clone())));
    fields.push((String::from_str("proofId"), JsonValue::Str(er.proof_id.clone())));
    fields.push((String::from_str("signature"), JsonValue::Str(er.signature.clone())));
    fields.push((String::from_str("publicKey"), JsonValue::Str(er.public_key.clone())));
    fields.push((String::from_str("signatureType"), JsonValue::Str(er.signature_type.clone())));
    fields.push((String::from_str("metadata"), JsonValue::Obj(clone_fields(&er.metadata))));
    proof {
        lemma_fields_view(fields@);
    }
    let v = JsonValue::Obj(fields);
    proof {
        assert(fields@.len() == 6);
        assert(fields_view(fields@)[0] == (fields@[0].0@, fields@[0].1@));
        assert(fields_view(fields@)[1] == (fields@[1].0@, fields@[1].1@));
        assert(fields_view(fields@)[2] == (fields@[2].0@, fields@[2].1@));
        assert(fields_view(fields@)[3] == (fields@[3].0@, fields@[3].1@));
        assert(fields_view(fields@)[4] == (fields@[4].0@, fields@[4].1@));
        assert(fields_view(fields@)[5] == (fields@[5].0@, fields@[5].1@));
    }
    assert(fields_view(fields@) =~= seq![
        ("data"@, JsonData::Str(er.data@)),
        ("proofId"@, JsonData::Str(er.proof_id@)),
        ("signature"@, JsonData::Str(er.signature@)),
        ("publicKey"@, JsonData::Str(er.public_key@)),
        ("signatureType"@, JsonData::Str(er.signature_type@)),
        ("metadata"@, JsonData::Obj(fields_view(er.metadata@))),
    ]);
    assert(v@ =~= entropy_json(er@));
    v
}

/// Round trip for entropy records: the canonical encoding of any record
/// whose metadata keys are distinct is well shaped and decodes back to the
/// same record, whatever its field values and metadata keys.
pub proof fn lemma_entropy_round_trip(e: EntropyData)
    requires
        unique_keys(e.metadata),
    ensures
        entropy_shape_ok(entropy_json(e)),
        decoded_entropy(entropy_json(e)) == e,
{
    reveal_strlit("data");
    reveal_strlit("proofId");
    reveal_strlit("signature");
    reveal_strlit("publicKey");
    reveal_strlit("signatureType");
    reveal_strlit("metadata");
    assert("data"@.len() == 4 && "proofId"@.len() == 7 && "signature"@.len() == 9 && "publicKey"@
        .len() == 9 && "signatureType"@.len() == 13 && "metadata"@.len() == 8);
    assert("signature"@[0] == 's' && "publicKey"@[0] == 'p');
    let fs = seq![
        ("data"@, JsonData::Str(e.data)),
        ("proofId"@, JsonData::Str(e.proof_id)),
        ("signature"@, JsonData::Str(e.signature)),
        ("publicKey"@, JsonData::Str(e.public_key)),
        ("signatureType"@, JsonData::Str(e.signature_type)),
        ("metadata"@, JsonData::Obj(e.metadata)),
    ];
    assert(entropy_json(e) == JsonData::Obj(fs));
    let d1 = fs.drop_first();
    let d2 = d1.drop_first();
    let d3 = d2.drop_first();
    let d4 = d3.drop_first();
    let d5 = d4.drop_first();
    assert(d1[0] == fs[1] && d1[1] == fs[2] && d1[2] == fs[3] && d1[3] == fs[4] && d1[4] == fs[5]);
    assert(d2[0] == fs[2] && d2[1] == fs[3] && d2[2] == fs[4] && d2[3] == fs[5]);
    assert(d3[0] == fs[3] && d3[1] == fs[4] && d3[2] == fs[5]);
    assert(d4[0] == fs[4] && d4[1] == fs[5]);
    assert(d5[0] == fs[5]);
    assert(obj_lookup(fs, "data"@) == Some(JsonData::Str(e.data)));
    assert(obj_lookup(fs, "proofId"@) == obj_lookup(d1, "proofId"@));
    assert(obj_lookup(d1, "proofId"@) == Some(JsonData::Str(e.proof_id)));
    assert(obj_lookup(fs, "signature"@) == obj_lookup(d1, "signature"@));
    assert(obj_lookup(d1, "signature"@) == obj_lookup(d2, "signature"@));
    assert(obj_lookup(d2, "signature"@) == Some(JsonData::Str(e.signature)));
    assert(obj_lookup(fs, "publicKey"@) == obj_lookup(d1, "publicKey"@));
    assert(obj_lookup(d1, "publicKey"@) == obj_lookup(d2, "publicKey"@));
    assert(obj_lookup(d2, "publicKey"@) == obj_lookup(d3, "publicKey"@));
    assert(obj_lookup(d3, "publicKey"@) == Some(JsonData::Str(e.public_key)));
    assert(obj_lookup(fs, "signatureType"@) == obj_lookup(d1, "signatureType"@));
    assert(obj_lookup(d1, "signatureType"@) == obj_lookup(d2, "signatureType"@));
    assert(obj_lookup(d2, "signatureType"@) == obj_lookup(d3, "signatureType"@));
    assert(obj_lookup(d3, "signatureType"@) == obj_lookup(d4, "signatureType"@));
    assert(obj_lookup(d4, "signatureType"@) == Some(JsonData::Str(e.signature_type)));
    assert(obj_lookup(fs, "metadata"@) == obj_lookup(d1, "metadata"@));
    assert(obj_lookup(d1, "metadata"@) == obj_lookup(d2, "metadata"@));
    assert(obj_lookup(d2, "metadata"@) == obj_lookup(d3, "metadata"@));
    assert(obj_lookup(d3, "metadata"@) == obj_lookup(d4, "metadata"@));
    assert(obj_lookup(d4, "metadata"@) == obj_lookup(d5, "metadata"@));
    assert(obj_lookup(d5, "metadata"@) == Some(JsonData::Obj(e.metadata)));
    assert(decoded_entropy(entropy_json(e)) =~= e);
}

/// Whether a JSON value has the shape of a health report: an object whose
/// `status` and `timestamp` fields are strings and whose `metrics` field is
/// an object with distinct keys.
pub open spec fn health_shape_ok(d: JsonData) -> bool {
    match d {
        JsonData::Obj(fs) => {
            &&& lookup_str(fs, "status"@) is Some
            &&& match obj_lookup(fs, "metrics"@) {
                Some(JsonData::Obj(m)) => unique_keys(m),
                _ => false,
            }
            &&& lookup_str(fs, "timestamp"@) is Some
        },
        _ => false,
    }
}

/// The metrics mapping of a health report's JSON value.
pub open spec fn health_json_metrics(d: JsonData) -> Seq<(Seq<char>, JsonData)> {
    match d {
        JsonData::Obj(fs) => match obj_lookup(fs, "metrics"@) {
            Some(JsonData::Obj(m)) => m,
            _ => Seq::empty(),
        },
        _ => Seq::empty(),
    }
}

/// The health report a well-shaped JSON value decodes to.
pub open spec fn decoded_health(d: JsonData) -> HealthData
    recommends
        health_shape_ok(d),
{
    let fs = match d {
        JsonData::Obj(fs) => fs,
        _ => Seq::empty(),
    };
    HealthData {
        status: str_or_empty(lookup_str(fs, "status"@)),
        metrics: health_json_metrics(d),
        timestamp: str_or_empty(lookup_str(fs, "timestamp"@)),
    }
}

/// The canonical JSON encoding of a health report.
pub open spec fn health_json(h: HealthData) -> JsonData {
    JsonData::Obj(
        seq![
            ("status"@, JsonData::Str(h.status)),
            ("metrics"@, JsonData::Obj(h.metrics)),
            ("timestamp"@, JsonData::Str(h.timestamp)),
        ],
    )
}

/// Decodes a JSON value into a health report.  Succeeds exactly on
/// well-shaped values; `metrics` is required, unlike an entropy record's
/// `metadata`.
pub fn decode_health_status(v: &JsonValue) -> (r: Result<HealthStatus, QRNGError>)
    ensures
        r is Ok <==> health_shape_ok(v@),
        r matches Ok(h) ==> h@ == decoded_health(v@),
        r matches Err(e) ==> e is Decode,
{
    let fields = match v {
        JsonValue::Obj(fields) => fields,
        _ => {
            return Err(decode_error("expected a JSON object"));
        },
    };
    let status = match get_field(fields, "status") {
        Some(JsonValue::Str(s)) => s.clone(),
        _ => {
            return Err(decode_error("missing or non-string status field"));
        },
    };
    let metrics = match get_field(fields, "metrics") {
        Some(JsonValue::Obj(m)) => {
            if !distinct_keys(m) {
                return Err(decode_error("duplicate metrics keys"));
            }
            clone_fields(m)
        },
        _ => {
            return Err(decode_error("missing or non-object metrics field"));
        },
    };
    let timestamp = match get_field(fields, "timestamp") {
        Some(JsonValue::Str(s)) => s.clone(),
        _ => {
            return Err(decode_error("missing or non-string timestamp field"));
        },
    };
    let h = HealthStatus { status, metrics, timestamp };
    assert(h@ =~= decoded_health(v@));
    Ok(h)
}

/// Encodes a health report as its canonical JSON value.
pub fn encode_health_status(h: &HealthStatus) -> (v: JsonValue)
    ensures
        v@ == health_json(h@),
{
    let mut fields: Vec<(String, JsonValue)> = Vec::new();
    fields.push((String::from_str("status"), JsonValue::Str(h.status.clone())));
    fields.push((String::from_str("metrics"), JsonValue::Obj(clone_fields(&h.metrics))));
    fields.push((String::from_str("timestamp"), JsonValue::Str(h.timestamp.clone())));
    proof {
        lemma_fields_view(fields@);
    }
    let v = JsonValue::Obj(fields);
    proof {
        assert(fields@.len() == 3);
        assert(fields_view(fields@)[0] == (fields@[0].0@, fields@[0].1@));
        assert(fields_view(fields@)[1] == (fields@[1].0@, fields@[1].1@));
        assert(fields_view(fields@)[2] == (fields@[2].0@, fields@[2].1@));
    }
    assert(fields_view(fields@) =~= seq![
        ("status"@, JsonData::Str(h.status@)),
        ("metrics"@, JsonData::Obj(fields_view(h.metrics@))),
        ("timestamp"@, JsonData::Str(h.timestamp@)),
    ]);
    assert(v@ =~= health_json(h@));
    v
}

/// Round trip for health reports: the canonical encoding of any report
/// whose metrics keys are distinct is well shaped and decodes back to the
/// same report, whatever its metrics keys.
pub proof fn lemma_health_round_trip(h: HealthData)
    requires
        unique_keys(h.metrics),
    ensures
        health_shape_ok(health_json(h)),
        decoded_health(health_json(h)) == h,
{
    reveal_strlit("status");
    reveal_strlit("metrics");
    reveal_strlit("timestamp");
    assert("status"@.len() == 6 && "metrics"@.len() == 7 && "timestamp"@.len() == 9);
    let fs = seq![
        ("status"@, JsonData::Str(h.status)),
        ("metrics"@, JsonData::Obj(h.metrics)),
        ("timestamp"@, JsonData::Str(h.timestamp)),
    ];
    assert(health_json(h) == JsonData::Obj(fs));
    let d1 = fs.drop_first();
    let d2 = d1.drop_first();
    assert(d1[0] == fs[1] && d1[1] == fs[2]);
    assert(d2[0] == fs[2]);
    assert(obj_lookup(fs, "status"@) == Some(JsonData::Str(h.status)));
    assert(obj_lookup(fs, "metrics"@) == obj_lookup(d1, "metrics"@));
    assert(obj_lookup(d1, "metrics"@) == Some(JsonData::Obj(h.metrics)));
    assert(obj_lookup(fs, "timestamp"@) == obj_lookup(d1, "timestamp"@));
    assert(obj_lookup(d1, "timestamp"@) == obj_lookup(d2, "timestamp"@));
    assert(obj_lookup(d2, "timestamp"@) == Some(JsonData::Str(h.timestamp)));
    assert(decoded_health(health_json(h)) =~= h);
}

} // verus!
