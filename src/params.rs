use vstd::prelude::*;
use crate::convert::{
    integer_list_param, integer_param, parse_integer_list, parse_integer_param, skip_leading,
    strip_start,
};

verus! {

/// How an interface parameter's value is read from the command line.
#[derive(Clone, Copy, Debug, PartialEq, Eq, Structural)]
pub enum ParamKind {
    /// A signed or unsigned integer: token amounts are rescaled.
    Integer,
    /// An array of unsigned integers, written as a list literal.
    UintArray,
    /// Anything else: the text is passed on as it is.
    Other,
}

/// One input parameter of an interface function.
#[derive(Clone, Debug)]
pub struct AbiInput {
    pub name: String,
    pub kind: ParamKind,
}

/// The value given to one parameter.
#[derive(Debug)]
pub enum ArgValue {
    Text(String),
    List(Vec<String>),
}

pub enum ArgValueView {
    Text(Seq<char>),
    List(Seq<Seq<char>>),
}

impl View for ArgValue {
    type V = ArgValueView;

    open spec fn view(&self) -> ArgValueView {
        match self {
            ArgValue::Text(s) => ArgValueView::Text(s@),
            ArgValue::List(l) => ArgValueView::List(l@.map_values(|x: String| x@)),
        }
    }
}

pub open spec fn arg_views(params: Seq<&str>) -> Seq<Seq<char>> {
    params.map_values(|s: &str| s@)
}

pub open spec fn entry_views(entries: Seq<(String, ArgValue)>) -> Seq<(Seq<char>, ArgValueView)> {
    entries.map_values(|e: (String, ArgValue)| (e.0@, e.1@))
}

/// `arg` names the parameter `name`, with or without leading dashes.
pub open spec fn names_param(arg: Seq<char>, name: Seq<char>) -> bool {
    strip_start(arg, '-') == name
}

pub open spec fn is_first_mention(params: Seq<Seq<char>>, name: Seq<char>, i: int) -> bool {
    &&& 0 <= i < params.len()
    &&& names_param(params[i], name)
    &&& forall|j: int| 0 <= j < i ==> !names_param(#[trigger] params[j], name)
}

/// The text given to a parameter: the argument after its first mention.
pub open spec fn raw_value(params: Seq<Seq<char>>, name: Seq<char>) -> Option<Seq<char>> {
    if exists|i: int| is_first_mention(params, name, i) {
        let i = choose|i: int| is_first_mention(params, name, i);
        if i + 1 < params.len() {
            Some(params[i + 1])
        } else {
            None
        }
    } else {
        None
    }
}

pub open spec fn converted_value(kind: ParamKind, raw: Seq<char>) -> Option<ArgValueView> {
    match kind {
        ParamKind::Integer => match integer_param(raw) {
            Some(v) => Some(ArgValueView::Text(v)),
            None => None,
        },
        ParamKind::UintArray => match integer_list_param(raw) {
            Some(l) => Some(ArgValueView::List(l)),
            None => None,
        },
        ParamKind::Other => Some(ArgValueView::Text(raw)),
    }
}

pub open spec fn input_value(params: Seq<Seq<char>>, input: AbiInput) -> Option<ArgValueView> {
    match raw_value(params, input.name@) {
        Some(raw) => converted_value(input.kind, raw),
        None => None,
    }
}

/// The value of every input parameter, in the interface's order, when each has one.
pub open spec fn param_entries(params: Seq<Seq<char>>, inputs: Seq<AbiInput>) -> Option<
    Seq<(Seq<char>, ArgValueView)>,
> {
    if forall|k: int| 0 <= k < inputs.len() ==> (#[trigger] input_value(params, inputs[k])) is Some {
        Some(Seq::new(inputs.len(), |k: int| (inputs[k].name@, input_value(params, inputs[k]).unwrap())))
    } else {
        None
    }
}

/// The JSON text of the object whose members are `entries`.
pub uninterp spec fn json_object_text(entries: Seq<(Seq<char>, ArgValueView)>) -> Seq<char>;

/// Relies on serde_json: each entry becomes a member (a string, or an array of
/// strings) of a `serde_json::Map`, and `Value::to_string` writes the object.
#[verifier::external_body]
fn to_json_object(entries: &Vec<(String, ArgValue)>) -> (r: String)
    ensures
        r@ == json_object_text(entry_views(entries@)),
{
    let members: serde_json::Map<String, serde_json::Value> = entries.iter().map(|(name, value)| {
        let v = match value {
            ArgValue::Text(s) => serde_json::Value::from(s.clone()),
            ArgValue::List(l) => serde_json::Value::from(l.clone()),
        };
        (name.clone(), v)
    }).collect();
    serde_json::Value::Object(members).to_string()
}

fn names_param_exec(arg: &str, name: &String) -> (r: bool)
    ensures
        r == names_param(arg@, name@),
{
    let n = arg.unicode_len();
    let lo = skip_leading(arg, '-', 0, n);
    assert(arg@.subrange(0, n as int) =~= arg@);
    let stripped = String::from_str(arg.substring_char(lo, n));
    stripped == *name
}

/// Finds the text given to the parameter `name`.
fn find_raw_value(params: &Vec<&str>, name: &String) -> (r: Result<String, String>)
    ensures
        r matches Ok(v) ==> raw_value(arg_views(params@), name@) == Some(v@),
        r is Err ==> raw_value(arg_views(params@), name@) is None,
{
    let ghost pv = arg_views(params@);
    let mut i: usize = 0;
    while i < params.len()
        invariant
            pv == arg_views(params@),
            i <= params@.len(),
            forall|j: int| 0 <= j < i ==> !names_param(#[trigger] pv[j], name@),
        decreases params@.len() - i,
    {
        if names_param_exec(params[i], name) {
            proof {
                assert(is_first_mention(pv, name@, i as int));
                let c = choose|c: int| is_first_mention(pv, name@, c);
                if c < i {
                    assert(!names_param(pv[c], name@));
                } else if c > i {
                    assert(!names_param(pv[i as int], name@));
                }
            }
            if i + 1 < params.len() {
                return Ok(String::from_str(params[i + 1]));
            }
            let mut m = String::from_str("argument \"");
            m.append(name.as_str());
            m.append("\" has no value");
            return Err(m);
        }
        i = i + 1;
    }
    proof {
        if exists|c: int| is_first_mention(pv, name@, c) {
            let c = choose|c: int| is_first_mention(pv, name@, c);
            assert(!names_param(pv[c], name@));
        }
    }
    let mut m = String::from_str("argument \"");
    m.append(name.as_str());
    m.append("\" not found");
    Err(m)
}

fn convert_value(kind: ParamKind, raw: String) -> (r: Result<ArgValue, String>)
    ensures
        r is Ok <==> converted_value(kind, raw@) is Some,
        r matches Ok(v) ==> Some(v@) == converted_value(kind, raw@),
{
    match kind {
        ParamKind::Integer => match parse_integer_param(raw.as_str()) {
            Ok(v) => Ok(ArgValue::Text(v)),
            Err(e) => Err(e),
        },
        ParamKind::UintArray => match parse_integer_list(raw.as_str()) {
            Ok(l) => {
                let ghost spec_list = integer_list_param(raw@).unwrap();
                assert(l@.map_values(|x: String| x@) =~= spec_list);
                Ok(ArgValue::List(l))
            },
            Err(e) => Err(e),
        },
        ParamKind::Other => Ok(ArgValue::Text(raw)),
    }
}

/// Gives each input parameter of an interface function its value, read from
/// command-line arguments of the form `--name value`.
pub fn build_param_entries(params_vec: &Vec<&str>, inputs: &Vec<AbiInput>) -> (r: Result<
    Vec<(String, ArgValue)>,
    String,
>)
    ensures
        r is Ok <==> param_entries(arg_views(params_vec@), inputs@) is Some,
        r matches Ok(es) ==> Some(entry_views(es@)) == param_entries(arg_views(params_vec@), inputs@),
{
    let ghost pv = arg_views(params_vec@);
    let mut out: Vec<(String, ArgValue)> = Vec::new();
    let mut k: usize = 0;
    while k < inputs.len()
        invariant
            pv == arg_views(params_vec@),
            k <= inputs@.len(),
            out@.len() == k,
            forall|j: int| 0 <= j < k ==> input_value(pv, inputs@[j]) is Some,
            forall|j: int|
                0 <= j < k ==> (#[trigger] entry_views(out@)[j]) == (
                    inputs@[j].name@,
                    input_value(pv, inputs@[j]).unwrap(),
                ),
        decreases inputs@.len() - k,
    {
        let input = &inputs[k];
        let raw = match find_raw_value(params_vec, &input.name) {
            Ok(raw) => raw,
            Err(e) => {
                assert(input_value(pv, inputs@[k as int]) is None);
                return Err(e);
            },
        };
        let value = match convert_value(input.kind, raw) {
            Ok(v) => v,
            Err(e) => {
                assert(input_value(pv, inputs@[k as int]) is None);
                return Err(e);
            },
        };
        let name = input.name.clone();
        let ghost before = out@;
        out.push((name, value));
        proof {
            assert forall|j: int| 0 <= j < k + 1 implies (#[trigger] entry_views(out@)[j]) == (
                inputs@[j].name@,
                input_value(pv, inputs@[j]).unwrap(),
            ) by {
                if j < k {
                    assert(out@[j] == before[j]);
                    assert(entry_views(before)[j] == entry_views(out@)[j]);
                }
            }
        }
        k = k + 1;
    }
    proof {
        assert(entry_views(out@) =~= param_entries(pv, inputs@).unwrap());
    }
    Ok(out)
}

/// The JSON object of a function's arguments, built from `--name value` pairs.
pub fn build_json_from_params(params_vec: &Vec<&str>, inputs: &Vec<AbiInput>) -> (r: Result<
    String,
    String,
>)
    ensures
        r is Ok <==> param_entries(arg_views(params_vec@), inputs@) is Some,
        r matches Ok(t) ==> t@ == json_object_text(
            param_entries(arg_views(params_vec@), inputs@).unwrap(),
        ),
{
    let entries = build_param_entries(params_vec, inputs)?;
    Ok(to_json_object(&entries))
}

/// The arguments of a call as JSON: a single argument is that JSON already;
/// otherwise the arguments are `--name value` pairs for the function's inputs.
pub fn parse_params(params_vec: Vec<&str>, inputs: &Vec<AbiInput>) -> (r: Result<String, String>)
    ensures
        params_vec@.len() == 1 ==> (r matches Ok(t) && t@ == params_vec@[0]@),
        params_vec@.len() != 1 ==> (r is Ok <==> param_entries(arg_views(params_vec@), inputs@) is Some),
        params_vec@.len() != 1 ==> (r matches Ok(t) ==> t@ == json_object_text(
            param_entries(arg_views(params_vec@), inputs@).unwrap(),
        )),
{
    if params_vec.len() == 1 {
        Ok(String::from_str(params_vec[0]))
    } else {
        build_json_from_params(&params_vec, inputs)
    }
}

} // verus!
