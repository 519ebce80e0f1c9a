//! The source loader: parses the human-authored YAML document and
//! validates its structure. Parsing is delegated to serde_yaml behind
//! trusted declarations; what the parser yields for given bytes is a
//! pure function of them, so it is given a name (`yaml_parse_of`, over
//! the node model `YamlNodeV`), and every decision taken on the parsed
//! values is verified against that name: `load_source` returns exactly
//! `spec_load(yaml_parse_of(bytes))`.

use crate::config::{ArgonConfigYAML, ArgonConfigYAMLV, FanConfigYAML, FanConfigYAMLV, Hysteresis,
    PowerScript, PowerScriptV};
use crate::curve::{wf_points, ControlPoint, TempMatrixYAML};
use vstd::prelude::*;

verus! {

/// Why a source document was rejected.
#[derive(Clone, Copy, PartialEq, Eq, Structural, Debug)]
pub enum ValidationError {
    /// Fewer than two control points were supplied.
    TooFewPoints,
    /// A temperature, speed or hysteresis amount exceeds 100.
    OutOfRange,
    /// The document is not YAML of the expected shape.
    Malformed,
}

/// The mathematical shape of a parsed YAML node, as far as this loader
/// reads one: null, booleans, unsigned integers, strings, sequences,
/// and the string-keyed entries of mappings. Everything else a YAML
/// document can hold — floats, negative integers, tagged values, and
/// mapping entries under non-string keys — is `Other`, of which the
/// accessors below promise nothing but failure.
pub enum YamlNodeV {
    Null,
    Bool(bool),
    UInt(u64),
    Text(Seq<char>),
    List(Seq<YamlNodeV>),
    Mapping(Map<Seq<char>, YamlNodeV>),
    Other,
}

/// The model of a parsed node: what `serde_yaml::Value` holds, read
/// through the accessors this loader calls.
pub uninterp spec fn yaml_model(v: serde_yaml::Value) -> YamlNodeV;

/// The result of `serde_yaml::from_slice` on the given bytes: nothing
/// when they are not a YAML document, else the parsed node's model.
/// The parse depends on the bytes alone.
pub uninterp spec fn yaml_parse_of(bytes: Seq<u8>) -> Option<YamlNodeV>;

#[verifier::external_type_specification]
#[verifier::external_body]
pub struct ExYamlValue(serde_yaml::Value);

/// Relies on serde_yaml::from_slice: parses YAML text into a tree of
/// values, failing exactly on text that is not a YAML document; the
/// result is a function of the bytes, named `yaml_parse_of`.
#[verifier::external_body]
fn yaml_parse(bytes: &Vec<u8>) -> (r: Option<serde_yaml::Value>)
    ensures
        match r {
            Option::Some(v) => yaml_parse_of(bytes@) == Option::Some(yaml_model(v)),
            Option::None => yaml_parse_of(bytes@) is None,
        },
{
    serde_yaml::from_slice::<serde_yaml::Value>(bytes.as_slice()).ok()
}

/// Relies on serde_yaml::Value::get with a string index: looks the key
/// up among a mapping's string-keyed entries, yielding nothing for
/// other value kinds or absent keys.
#[verifier::external_body]
fn yaml_get<'a>(v: &'a serde_yaml::Value, key: &str) -> (r: Option<&'a serde_yaml::Value>)
    ensures
        match yaml_model(*v) {
            YamlNodeV::Mapping(m) => match r {
                Option::Some(c) => m.contains_key(key@) && yaml_model(*c) == m[key@],
                Option::None => !m.contains_key(key@),
            },
            _ => r is None,
        },
{
    v.get(key)
}

/// Relies on serde_yaml::Value::get with a usize index: indexes into a
/// sequence. On a mapping it instead looks a numeric key up, of which
/// nothing is promised here; every other value kind yields nothing.
#[verifier::external_body]
fn yaml_index<'a>(v: &'a serde_yaml::Value, i: usize) -> (r: Option<&'a serde_yaml::Value>)
    ensures
        match yaml_model(*v) {
            YamlNodeV::List(items) => match r {
                Option::Some(c) => i < items.len() && yaml_model(*c) == items[i as int],
                Option::None => i >= items.len(),
            },
            YamlNodeV::Mapping(_) => true,
            _ => r is None,
        },
{
    v.get(i)
}

/// Relies on serde_yaml::Value::as_u64: the numeric value of an
/// unsigned integer node, nothing for any other node.
#[verifier::external_body]
fn yaml_as_u64(v: &serde_yaml::Value) -> (r: Option<u64>)
    ensures
        r == (match yaml_model(*v) {
            YamlNodeV::UInt(n) => Option::Some(n),
            _ => Option::<u64>::None,
        }),
{
    v.as_u64()
}

/// Relies on serde_yaml::Value::as_bool: the value of a boolean node,
/// nothing for any other node.
#[verifier::external_body]
fn yaml_as_bool(v: &serde_yaml::Value) -> (r: Option<bool>)
    ensures
        r == (match yaml_model(*v) {
            YamlNodeV::Bool(b) => Option::Some(b),
            _ => Option::<bool>::None,
        }),
{
    v.as_bool()
}

/// Relies on serde_yaml::Value::as_str: the content of a string node,
/// copied to an owned string, nothing for any other node.
#[verifier::external_body]
fn yaml_as_string(v: &serde_yaml::Value) -> (r: Option<String>)
    ensures
        match yaml_model(*v) {
            YamlNodeV::Text(s) => r matches Option::Some(out) && out@ == s,
            _ => r is None,
        },
{
    match v.as_str() {
        Some(s) => Some(s.to_string()),
        None => None,
    }
}

/// Relies on serde_yaml::Value::as_sequence: the length of a sequence
/// node, nothing for any other node.
#[verifier::external_body]
fn yaml_seq_len(v: &serde_yaml::Value) -> (r: Option<usize>)
    ensures
        match yaml_model(*v) {
            YamlNodeV::List(items) => r matches Option::Some(n) && n == items.len(),
            _ => r is None,
        },
{
    match v.as_sequence() {
        Some(s) => Some(s.len()),
        None => None,
    }
}

/// Relies on serde_yaml::Value::is_null: whether the node is null.
#[verifier::external_body]
fn yaml_is_null(v: &serde_yaml::Value) -> (r: bool)
    ensures
        r == (yaml_model(*v) is Null),
{
    v.is_null()
}

/// One raw control-point row, read from the document before any range
/// check.
pub type RawPoint = (u64, u64);

/// True when both coordinates of a raw row lie within 0..=100.
pub open spec fn point_in_range(p: RawPoint) -> bool {
    p.0 <= 100 && p.1 <= 100
}

/// The string-keyed entry of a mapping node, when there is one.
pub open spec fn model_get(node: YamlNodeV, key: Seq<char>) -> Option<YamlNodeV> {
    match node {
        YamlNodeV::Mapping(m) => if m.contains_key(key) {
            Option::Some(m[key])
        } else {
            Option::None
        },
        _ => Option::None,
    }
}

/// True when a matrix row is a two-element sequence of unsigned
/// integers.
pub open spec fn row_ok(row: YamlNodeV) -> bool {
    match row {
        YamlNodeV::List(cells) => cells.len() == 2 && cells[0] is UInt && cells[1] is UInt,
        _ => false,
    }
}

/// The two numbers a well-shaped matrix row holds.
pub open spec fn row_val(row: YamlNodeV) -> RawPoint
    recommends
        row_ok(row),
{
    match row {
        YamlNodeV::List(cells) => (cells[0]->UInt_0, cells[1]->UInt_0),
        _ => (0, 0),
    }
}

/// What reading the matrix node yields: its rows as number pairs, or a
/// malformed-document error when the node is not a sequence of
/// two-number rows.
pub open spec fn spec_points(node: YamlNodeV) -> Result<Seq<RawPoint>, ValidationError> {
    match node {
        YamlNodeV::List(rows) => if forall|i: int| 0 <= i < rows.len() ==> row_ok(#[trigger] rows[i]) {
            Result::Ok(Seq::new(rows.len(), |i: int| row_val(rows[i])))
        } else {
            Result::Err(ValidationError::Malformed)
        },
        _ => Result::Err(ValidationError::Malformed),
    }
}

/// What validating the raw rows yields: too few rows is rejected
/// first, then any coordinate over 100; what remains becomes the point
/// list, in document order, unsorted and with duplicates kept.
pub open spec fn spec_validate(raw: Seq<RawPoint>) -> Result<Seq<ControlPoint>, ValidationError> {
    if raw.len() < 2 {
        Result::Err(ValidationError::TooFewPoints)
    } else if !(forall|i: int| 0 <= i < raw.len() ==> point_in_range(#[trigger] raw[i])) {
        Result::Err(ValidationError::OutOfRange)
    } else {
        Result::Ok(
            Seq::new(
                raw.len(),
                |i: int| ControlPoint { temperature: raw[i].0 as u8, speed: raw[i].1 as u8 },
            ),
        )
    }
}

/// What reading one optional power-script node yields: absent or null
/// means no script; otherwise `location` must be a string and `args` a
/// sequence of strings.
pub open spec fn spec_script(root: YamlNodeV, key: Seq<char>) -> Result<
    Option<PowerScriptV>,
    ValidationError,
> {
    match model_get(root, key) {
        Option::None => Result::Ok(Option::None),
        Option::Some(node) => if node is Null {
            Result::Ok(Option::None)
        } else {
            match model_get(node, "location"@) {
                Option::Some(YamlNodeV::Text(location)) => match model_get(node, "args"@) {
                    Option::Some(YamlNodeV::List(items)) => if forall|i: int|
                        0 <= i < items.len() ==> #[trigger] items[i] is Text {
                        Result::Ok(
                            Option::Some(
                                PowerScriptV {
                                    location,
                                    args: Seq::new(items.len(), |i: int| items[i]->Text_0),
                                },
                            ),
                        )
                    } else {
                        Result::Err(ValidationError::Malformed)
                    },
                    _ => Result::Err(ValidationError::Malformed),
                },
                _ => Result::Err(ValidationError::Malformed),
            }
        },
    }
}

/// What loading a source document yields, as a function of the parse:
/// a failed parse is malformed; then the fan section is read — the
/// interval, the hysteresis amount (rejected over 100) and direction,
/// and the control-point matrix, validated by `spec_validate` — and
/// finally the two optional power scripts.
pub open spec fn spec_load(parsed: Option<YamlNodeV>) -> Result<
    ArgonConfigYAMLV,
    ValidationError,
> {
    match parsed {
        Option::None => Result::Err(ValidationError::Malformed),
        Option::Some(root) => match model_get(root, "fan_config"@) {
            Option::None => Result::Err(ValidationError::Malformed),
            Option::Some(fan) => match model_get(fan, "interval"@) {
                Option::Some(YamlNodeV::UInt(interval)) => match model_get(fan, "hysteresis"@) {
                    Option::None => Result::Err(ValidationError::Malformed),
                    Option::Some(hyst) => match model_get(hyst, "amount"@) {
                        Option::Some(YamlNodeV::UInt(amount)) => if amount > 100 {
                            Result::Err(ValidationError::OutOfRange)
                        } else {
                            match model_get(hyst, "only_way_down"@) {
                                Option::Some(YamlNodeV::Bool(only_way_down)) => match model_get(
                                    fan,
                                    "matrix"@,
                                ) {
                                    Option::None => Result::Err(ValidationError::Malformed),
                                    Option::Some(matrix_node) => match spec_points(matrix_node) {
                                        Result::Err(e) => Result::Err(e),
                                        Result::Ok(raw) => match spec_validate(raw) {
                                            Result::Err(e) => Result::Err(e),
                                            Result::Ok(points) => match spec_script(
                                                root,
                                                "shutdown_script"@,
                                            ) {
                                                Result::Err(e) => Result::Err(e),
                                                Result::Ok(shutdown) => match spec_script(
                                                    root,
                                                    "reboot_script"@,
                                                ) {
                                                    Result::Err(e) => Result::Err(e),
                                                    Result::Ok(reboot) => Result::Ok(
                                                        ArgonConfigYAMLV {
                                                            fan_config: FanConfigYAMLV {
                                                                interval,
                                                                hysteresis: Hysteresis {
                                                                    amount: amount as u8,
                                                                    only_way_down,
                                                                },
                                                                matrix: points,
                                                            },
                                                            shutdown_script: shutdown,
                                                            reboot_script: reboot,
                                                        },
                                                    ),
                                                },
                                            },
                                        },
                                    },
                                },
                                _ => Result::Err(ValidationError::Malformed),
                            }
                        },
                        _ => Result::Err(ValidationError::Malformed),
                    },
                },
                _ => Result::Err(ValidationError::Malformed),
            },
        },
    }
}

/// Checks the raw control-point rows the way the loader owes it,
/// returning exactly `spec_validate` of them: fewer than two rows is
/// `TooFewPoints`, a coordinate over 100 is `OutOfRange`, and a valid
/// list is accepted unchanged — same length, order and duplicates.
#[verifier::loop_isolation(false)]
pub fn validate_matrix(raw: &Vec<RawPoint>) -> (r: Result<TempMatrixYAML, ValidationError>)
    ensures
        match r {
            Result::Ok(m) => spec_validate(raw@) == Result::<Seq<ControlPoint>, ValidationError>::Ok(
                m@,
            ) && wf_points(m@) && m@.len() == raw@.len() && m@.len() >= 2,
            Result::Err(e) => spec_validate(raw@) == Result::<Seq<ControlPoint>, ValidationError>::Err(
                e,
            ),
        },
{
    if raw.len() < 2 {
        return Result::Err(ValidationError::TooFewPoints);
    }
    let mut points: TempMatrixYAML = Vec::new();
    let mut i: usize = 0;
    while i < raw.len()
        invariant
            i <= raw@.len(),
            points@.len() == i,
            forall|j: int| 0 <= j < i ==> point_in_range(#[trigger] raw@[j]),
            forall|j: int|
                0 <= j < i ==> #[trigger] points@[j] == (ControlPoint {
                    temperature: raw@[j].0 as u8,
                    speed: raw@[j].1 as u8,
                }),
        decreases raw@.len() - i,
    {
        let (t, s) = raw[i];
        if t > 100 || s > 100 {
            proof {
                assert(!point_in_range(raw@[i as int]));
            }
            return Result::Err(ValidationError::OutOfRange);
        }
        points.push(ControlPoint { temperature: t as u8, speed: s as u8 });
        i = i + 1;
    }
    proof {
        assert forall|j: int| 0 <= j < points@.len() implies #[trigger] points@[j].temperature
            <= 100 && points@[j].speed <= 100 by {
            assert(point_in_range(raw@[j]));
        }
        assert(points@ =~= Seq::new(
            raw@.len(),
            |i: int| ControlPoint { temperature: raw@[i].0 as u8, speed: raw@[i].1 as u8 },
        ));
    }
    Result::Ok(points)
}

/// Reads the control-point rows out of the matrix node, returning
/// exactly `spec_points` of its model.
#[verifier::loop_isolation(false)]
fn extract_points(matrix_val: &serde_yaml::Value) -> (r: Result<Vec<RawPoint>, ValidationError>)
    ensures
        match r {
            Result::Ok(raw) => spec_points(yaml_model(*matrix_val)) == Result::<
                Seq<RawPoint>,
                ValidationError,
            >::Ok(raw@),
            Result::Err(e) => spec_points(yaml_model(*matrix_val)) == Result::<
                Seq<RawPoint>,
                ValidationError,
            >::Err(e),
        },
{
    let n = match yaml_seq_len(matrix_val) {
        Some(n) => n,
        None => {
            return Result::Err(ValidationError::Malformed);
        },
    };
    let ghost rows = yaml_model(*matrix_val)->List_0;
    let mut raw: Vec<RawPoint> = Vec::new();
    let mut i: usize = 0;
    while i < n
        invariant
            i <= n,
            raw@.len() == i,
            forall|j: int| 0 <= j < i ==> row_ok(#[trigger] rows[j]),
            forall|j: int| 0 <= j < i ==> #[trigger] raw@[j] == row_val(rows[j]),
        decreases n - i,
    {
        let row = match yaml_index(matrix_val, i) {
            Some(row) => row,
            None => {
                return Result::Err(ValidationError::Malformed);
            },
        };
        let ghost row_model = yaml_model(*row);
        match yaml_seq_len(row) {
            Some(2) => (),
            _ => {
                proof {
                    assert(!row_ok(rows[i as int]));
                }
                return Result::Err(ValidationError::Malformed);
            },
        }
        let t = match yaml_index(row, 0) {
            Some(cell) => match yaml_as_u64(cell) {
                Some(t) => t,
                None => {
                    proof {
                        assert(!row_ok(rows[i as int]));
                    }
                    return Result::Err(ValidationError::Malformed);
                },
            },
            None => {
                return Result::Err(ValidationError::Malformed);
            },
        };
        let s = match yaml_index(row, 1) {
            Some(cell) => match yaml_as_u64(cell) {
                Some(s) => s,
                None => {
                    proof {
                        assert(!row_ok(rows[i as int]));
                    }
                    return Result::Err(ValidationError::Malformed);
                },
            },
            None => {
                return Result::Err(ValidationError::Malformed);
            },
        };
        raw.push((t, s));
        i = i + 1;
    }
    proof {
        assert(raw@ =~= Seq::new(rows.len(), |i: int| row_val(rows[i])));
    }
    Result::Ok(raw)
}

/// Reads one optional power-script node, returning exactly
/// `spec_script` of the root's model and the key.
#[verifier::loop_isolation(false)]
fn extract_script(root: &serde_yaml::Value, key: &str) -> (r: Result<
    Option<PowerScript>,
    ValidationError,
>)
    ensures
        match r {
            Result::Ok(o) => spec_script(yaml_model(*root), key@) == Result::<
                Option<PowerScriptV>,
                ValidationError,
            >::Ok(crate::config::script_option_view(o)),
            Result::Err(e) => spec_script(yaml_model(*root), key@) == Result::<
                Option<PowerScriptV>,
                ValidationError,
            >::Err(e),
        },
{
    let node = match yaml_get(root, key) {
        Some(node) => node,
        None => {
            return Result::Ok(Option::None);
        },
    };
    let ghost node_model = yaml_model(*node);
    if yaml_is_null(node) {
        return Result::Ok(Option::None);
    }
    let location = match yaml_get(node, "location") {
        Some(loc_val) => match yaml_as_string(loc_val) {
            Some(location) => location,
            None => {
                return Result::Err(ValidationError::Malformed);
            },
        },
        None => {
            return Result::Err(ValidationError::Malformed);
        },
    };
    let args_val = match yaml_get(node, "args") {
        Some(args_val) => args_val,
        None => {
            return Result::Err(ValidationError::Malformed);
        },
    };
    let n = match yaml_seq_len(args_val) {
        Some(n) => n,
        None => {
            return Result::Err(ValidationError::Malformed);
        },
    };
    let ghost items = yaml_model(*args_val)->List_0;
    let mut args: Vec<String> = Vec::new();
    let mut i: usize = 0;
    while i < n
        invariant
            i <= n,
            args@.len() == i,
            forall|j: int| 0 <= j < i ==> #[trigger] items[j] is Text,
            forall|j: int| 0 <= j < i ==> #[trigger] args@[j]@ == items[j]->Text_0,
        decreases n - i,
    {
        match yaml_index(args_val, i) {
            Some(cell) => match yaml_as_string(cell) {
                Some(arg) => {
                    let ghost prev_vec = args@;
                    args.push(arg);
                    proof {
                        assert(args@ == prev_vec.push(args@[i as int]));
                        assert forall|j: int| 0 <= j <= i implies #[trigger] args@[j]@ == items[
                            j
                        ]->Text_0 by {
                            if j < i {
                                assert(args@[j] == prev_vec[j]);
                            } else {
                                assert(args@[j]@ == items[i as int]->Text_0);
                            }
                        }
                    }
                    i = i + 1;
                },
                None => {
                    proof {
                        assert(!(items[i as int] is Text));
                    }
                    return Result::Err(ValidationError::Malformed);
                },
            },
            None => {
                return Result::Err(ValidationError::Malformed);
            },
        }
    }
    proof {
        assert(args.deep_view() =~= Seq::new(items.len(), |i: int| items[i]->Text_0));
    }
    Result::Ok(Option::Some(PowerScript { location, args }))
}

/// Parses and validates a source document given as bytes, returning
/// exactly `spec_load` of the named parse: an accepted document is the
/// projection of what the parser yielded, and each rejection carries
/// the error `spec_load` assigns to these bytes.
pub fn load_source(bytes: &Vec<u8>) -> (r: Result<ArgonConfigYAML, ValidationError>)
    ensures
        match r {
            Result::Ok(c) => spec_load(yaml_parse_of(bytes@)) == Result::<
                ArgonConfigYAMLV,
                ValidationError,
            >::Ok(c@) && crate::config::wf_yaml(c@),
            Result::Err(e) => spec_load(yaml_parse_of(bytes@)) == Result::<
                ArgonConfigYAMLV,
                ValidationError,
            >::Err(e),
        },
{
    let root = match yaml_parse(bytes) {
        Some(root) => root,
        None => {
            return Result::Err(ValidationError::Malformed);
        },
    };
    let ghost root_model = yaml_model(root);
    let fan_val = match yaml_get(&root, "fan_config") {
        Some(fan_val) => fan_val,
        None => {
            return Result::Err(ValidationError::Malformed);
        },
    };
    let ghost fan_model = yaml_model(*fan_val);
    let interval = match yaml_get(fan_val, "interval") {
        Some(v) => match yaml_as_u64(v) {
            Some(interval) => interval,
            None => {
                return Result::Err(ValidationError::Malformed);
            },
        },
        None => {
            return Result::Err(ValidationError::Malformed);
        },
    };
    let hyst_val = match yaml_get(fan_val, "hysteresis") {
        Some(hyst_val) => hyst_val,
        None => {
            return Result::Err(ValidationError::Malformed);
        },
    };
    let amount64 = match yaml_get(hyst_val, "amount") {
        Some(v) => match yaml_as_u64(v) {
            Some(amount64) => amount64,
            None => {
                return Result::Err(ValidationError::Malformed);
            },
        },
        None => {
            return Result::Err(ValidationError::Malformed);
        },
    };
    if amount64 > 100 {
        return Result::Err(ValidationError::OutOfRange);
    }
    let only_way_down = match yaml_get(hyst_val, "only_way_down") {
        Some(v) => match yaml_as_bool(v) {
            Some(b) => b,
            None => {
                return Result::Err(ValidationError::Malformed);
            },
        },
        None => {
            return Result::Err(ValidationError::Malformed);
        },
    };
    let matrix_val = match yaml_get(fan_val, "matrix") {
        Some(matrix_val) => matrix_val,
        None => {
            return Result::Err(ValidationError::Malformed);
        },
    };
    let raw = match extract_points(matrix_val) {
        Result::Ok(raw) => raw,
        Result::Err(e) => {
            return Result::Err(e);
        },
    };
    let matrix = match validate_matrix(&raw) {
        Result::Ok(matrix) => matrix,
        Result::Err(e) => {
            return Result::Err(e);
        },
    };
    let shutdown_script = match extract_script(&root, "shutdown_script") {
        Result::Ok(s) => s,
        Result::Err(e) => {
            return Result::Err(e);
        },
    };
    let reboot_script = match extract_script(&root, "reboot_script") {
        Result::Ok(s) => s,
        Result::Err(e) => {
            return Result::Err(e);
        },
    };
    let c = ArgonConfigYAML {
        fan_config: FanConfigYAML {
            interval,
            hysteresis: Hysteresis { amount: amount64 as u8, only_way_down },
            matrix,
        },
        shutdown_script,
        reboot_script,
    };
    proof {
        assert(spec_load(yaml_parse_of(bytes@)) == Result::<ArgonConfigYAMLV,
            ValidationError>::Ok(c@));
    }
    Result::Ok(c)
}

} // verus!
