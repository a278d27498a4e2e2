//! Detection of the JSON helpers a method needs at a foreign-function
//! boundary, from the shapes of its parameter and return types.
//!
//! Primitive numbers, `bool`, `String`, `str` and `ConfigHandle` cross the
//! boundary as they are; every other type is "complex" and travels as JSON.
//! A method with complex parameters needs a helper that takes JSON in, one
//! with a complex result a helper that gives JSON out, and one with both a
//! single helper for both directions.

use vstd::prelude::*;
use crate::text::str_equal;

verus! {

/// The shape of a type as the detection reads it.
#[derive(Debug)]
pub enum TypeShape {
    /// A path type, by the name of its last segment (`Vec<u8>` is `Vec`)
    Named(String),
    /// A reference to a path type, by the name of its last segment
    RefNamed(String),
    /// A path type without segments
    Unnamed,
    /// A reference to a type that is not a path
    RefOther,
    /// Any other type: tuples, arrays, slices, function pointers, ...
    Other,
}

/// The shape of a method's return type.
#[derive(Debug)]
pub enum ReturnShape {
    /// No return type
    Unit,
    /// `Result<T, E>`, with the shape of `T` when it is written out
    Result(Option<TypeShape>),
    /// Any other return type
    Plain(TypeShape),
}

/// Which JSON helpers to generate for a method.
#[derive(Debug, Clone, Copy, PartialEq, Eq, Structural)]
pub enum JsonDirection {
    /// A helper taking parameters as JSON
    Incoming,
    /// A helper giving the result as JSON
    Outgoing,
    /// One helper for both directions
    Both,
    /// Decide from the method's signature
    Auto,
}

/// The type names that cross the boundary without JSON.
pub open spec fn simple_name(n: Seq<char>) -> bool {
    ||| n == "u8"@ || n == "u16"@ || n == "u32"@ || n == "u64"@ || n == "u128"@ || n == "usize"@
    ||| n == "i8"@ || n == "i16"@ || n == "i32"@ || n == "i64"@ || n == "i128"@ || n == "isize"@
    ||| n == "f32"@ || n == "f64"@ || n == "bool"@ || n == "String"@ || n == "str"@
    ||| n == "ConfigHandle"@
}

/// Whether a type of shape `t` needs JSON: every type but a simple name and
/// a reference to `str` or to `ConfigHandle`.
pub open spec fn complex_shape(t: TypeShape) -> bool {
    match t {
        TypeShape::Named(n) => !simple_name(n@),
        TypeShape::RefNamed(n) => !(n@ == "str"@ || n@ == "ConfigHandle"@),
        _ => true,
    }
}

/// Whether a return type of shape `r` needs JSON: the `Ok` type of a
/// `Result` (complex when it is not written out), or the type itself.
pub open spec fn complex_return(r: ReturnShape) -> bool {
    match r {
        ReturnShape::Unit => false,
        ReturnShape::Result(Some(t)) => complex_shape(t),
        ReturnShape::Result(None) => true,
        ReturnShape::Plain(t) => complex_shape(t),
    }
}

/// Whether some parameter needs JSON.
pub open spec fn any_complex(params: Seq<TypeShape>) -> bool {
    exists|i: int| 0 <= i < params.len() && complex_shape(#[trigger] params[i])
}

/// The helpers a method needs: both directions when parameters and result
/// are complex, one direction when only one side is, none otherwise.
pub open spec fn detected(params: Seq<TypeShape>, ret: ReturnShape) -> Seq<JsonDirection> {
    if any_complex(params) && complex_return(ret) {
        seq![JsonDirection::Both]
    } else if any_complex(params) {
        seq![JsonDirection::Incoming]
    } else if complex_return(ret) {
        seq![JsonDirection::Outgoing]
    } else {
        Seq::empty()
    }
}

/// The directions asked for, with `in` and `out` together read as both:
/// exactly two directions, one incoming and one outgoing, become `Both`.
pub open spec fn combined_directions(ds: Seq<JsonDirection>) -> Seq<JsonDirection> {
    if ds.len() == 2 && ds.contains(JsonDirection::Incoming) && ds.contains(JsonDirection::Outgoing) {
        seq![JsonDirection::Both]
    } else {
        ds
    }
}

/// The directions asked for (see `combined_directions`).
pub fn combine_directions(ds: Vec<JsonDirection>) -> (r: Vec<JsonDirection>)
    ensures
        r@ == combined_directions(ds@),
{
    if ds.len() == 2 {
        let has_in = ds[0] == JsonDirection::Incoming || ds[1] == JsonDirection::Incoming;
        let has_out = ds[0] == JsonDirection::Outgoing || ds[1] == JsonDirection::Outgoing;
        proof {
            if ds@.contains(JsonDirection::Incoming) {
                let k = choose|k: int| 0 <= k < ds@.len() && ds@[k] == JsonDirection::Incoming;
                assert(k == 0 || k == 1);
            }
            if ds@.contains(JsonDirection::Outgoing) {
                let k = choose|k: int| 0 <= k < ds@.len() && ds@[k] == JsonDirection::Outgoing;
                assert(k == 0 || k == 1);
            }
            if has_in {
                if ds@[0] == JsonDirection::Incoming { assert(ds@.contains(ds@[0])); } else { assert(ds@.contains(ds@[1])); }
            }
            if has_out {
                if ds@[0] == JsonDirection::Outgoing { assert(ds@.contains(ds@[0])); } else { assert(ds@.contains(ds@[1])); }
            }
        }
        if has_in && has_out {
            let mut r: Vec<JsonDirection> = Vec::new();
            r.push(JsonDirection::Both);
            assert(r@ =~= seq![JsonDirection::Both]);
            return r;
        }
    }
    ds
}

/// Whether `n` is one of the simple type names.
fn is_simple_name(n: &str) -> (r: bool)
    ensures
        r == simple_name(n@),
{
    str_equal(n, "u8") || str_equal(n, "u16") || str_equal(n, "u32") || str_equal(n, "u64")
        || str_equal(n, "u128") || str_equal(n, "usize") || str_equal(n, "i8") || str_equal(n, "i16")
        || str_equal(n, "i32") || str_equal(n, "i64") || str_equal(n, "i128") || str_equal(n, "isize")
        || str_equal(n, "f32") || str_equal(n, "f64") || str_equal(n, "bool") || str_equal(n, "String")
        || str_equal(n, "str") || str_equal(n, "ConfigHandle")
}

/// Whether a type of shape `t` is an `Arc`.
pub fn is_arc_type(t: &TypeShape) -> (r: bool)
    ensures
        r == (t matches TypeShape::Named(n) && n@ == "Arc"@),
{
    match t {
        TypeShape::Named(n) => str_equal(n.as_str(), "Arc"),
        _ => false,
    }
}

/// Whether a type of shape `t` needs JSON (see `complex_shape`).
pub fn is_complex_type(t: &TypeShape) -> (r: bool)
    ensures
        r == complex_shape(*t),
{
    match t {
        TypeShape::Named(n) => !is_simple_name(n.as_str()),
        TypeShape::RefNamed(n) => !(str_equal(n.as_str(), "str") || str_equal(n.as_str(), "ConfigHandle")),
        _ => true,
    }
}

/// Whether a return type of shape `r` needs JSON (see `complex_return`).
pub fn is_complex_return(ret: &ReturnShape) -> (r: bool)
    ensures
        r == complex_return(*ret),
{
    match ret {
        ReturnShape::Unit => false,
        ReturnShape::Result(Some(t)) => is_complex_type(t),
        ReturnShape::Result(None) => true,
        ReturnShape::Plain(t) => is_complex_type(t),
    }
}

/// Whether the method returns a `Result`.
pub fn returns_result(ret: &ReturnShape) -> (r: bool)
    ensures
        r == (*ret is Result),
{
    match ret {
        ReturnShape::Result(_) => true,
        _ => false,
    }
}

/// The shape of the `Ok` type of a `Result` return type, when written out.
pub fn extract_ok_type(ret: &ReturnShape) -> (r: Option<&TypeShape>)
    ensures
        r is Some <==> (*ret matches ReturnShape::Result(Some(_))),
        r matches Some(t) ==> (*ret matches ReturnShape::Result(Some(u)) && *t == u),
{
    match ret {
        ReturnShape::Result(Some(t)) => Some(t),
        _ => None,
    }
}

/// The JSON helpers a method with parameter types `params` (the `self`
/// parameter left out) and return type `ret` needs (see `detected`).
pub fn auto_detect_directions(params: &Vec<TypeShape>, ret: &ReturnShape) -> (r: Vec<JsonDirection>)
    ensures
        r@ == detected(params@, *ret),
{
    let mut complex_params = false;
    let mut i: usize = 0;
    while i < params.len()
        invariant
            i <= params@.len(),
            complex_params <==> exists|j: int| 0 <= j < i && complex_shape(#[trigger] params@[j]),
        decreases params@.len() - i,
    {
        if is_complex_type(&params[i]) {
            complex_params = true;
        }
        i = i + 1;
    }
    let complex_result = is_complex_return(ret);
    let mut r: Vec<JsonDirection> = Vec::new();
    if complex_params && complex_result {
        r.push(JsonDirection::Both);
    } else if complex_params {
        r.push(JsonDirection::Incoming);
    } else if complex_result {
        r.push(JsonDirection::Outgoing);
    }
    assert(r@ =~= detected(params@, *ret));
    r
}

/// The direction a word of the helper's attribute names, if any.
pub open spec fn word_direction(w: Seq<char>) -> Option<JsonDirection> {
    if w == "in"@ || w == "incoming"@ {
        Some(JsonDirection::Incoming)
    } else if w == "out"@ || w == "outgoing"@ {
        Some(JsonDirection::Outgoing)
    } else if w == "auto"@ {
        Some(JsonDirection::Auto)
    } else if w == "bidirectional"@ {
        Some(JsonDirection::Both)
    } else {
        None
    }
}

/// Whether `w` is one of the attribute's words: a direction or `handle_mode`.
pub open spec fn known_word(w: Seq<char>) -> bool {
    word_direction(w) is Some || w == "handle_mode"@
}

/// The directions that the words name, in order.
pub open spec fn directions_of(ws: Seq<Seq<char>>) -> Seq<JsonDirection>
    decreases ws.len(),
{
    if ws.len() == 0 {
        Seq::empty()
    } else {
        let r = directions_of(ws.drop_last());
        match word_direction(ws.last()) {
            Some(d) => r.push(d),
            None => r,
        }
    }
}

/// The message for a word that the attribute does not know.
pub open spec fn unknown_word_message() -> Seq<char> {
    "Expected 'in', 'out', 'incoming', 'outgoing', 'auto', 'bidirectional', or 'handle_mode'"@
}

/// The direction `w` names (see `word_direction`).
fn direction_of_word(w: &str) -> (r: Option<JsonDirection>)
    ensures
        r == word_direction(w@),
{
    if str_equal(w, "in") || str_equal(w, "incoming") {
        Some(JsonDirection::Incoming)
    } else if str_equal(w, "out") || str_equal(w, "outgoing") {
        Some(JsonDirection::Outgoing)
    } else if str_equal(w, "auto") {
        Some(JsonDirection::Auto)
    } else if str_equal(w, "bidirectional") {
        Some(JsonDirection::Both)
    } else {
        None
    }
}

/// Reads the words of the JSON helper's attribute (`in`/`incoming`,
/// `out`/`outgoing`, `auto`, `bidirectional`, `handle_mode`): the directions
/// asked for, with in and out together read as both (see
/// `combined_directions`), and whether `handle_mode` was given. No words
/// ask for automatic detection; any other word is refused.
pub fn parse_json_helper_args(words: &Vec<String>) -> (r: Result<(Vec<JsonDirection>, bool), String>)
    ensures
        words@.len() == 0 ==> (r matches Ok((d, h)) && d@ == seq![JsonDirection::Auto] && !h),
        words@.len() > 0 ==> (r is Ok <==> forall|i: int| 0 <= i < words@.len() ==> known_word(#[trigger] words@[i]@)),
        words@.len() > 0 ==> (r matches Ok((d, h)) ==> d@ == combined_directions(directions_of(words.deep_view()))
            && h == words.deep_view().contains("handle_mode"@)),
        r matches Err(m) ==> m@ == unknown_word_message(),
{
    if words.len() == 0 {
        let mut d: Vec<JsonDirection> = Vec::new();
        d.push(JsonDirection::Auto);
        assert(d@ =~= seq![JsonDirection::Auto]);
        return Ok((d, false));
    }
    let ghost wv = words.deep_view();
    let mut dirs: Vec<JsonDirection> = Vec::new();
    let mut handle_mode = false;
    let mut i: usize = 0;
    while i < words.len()
        invariant
            wv == words.deep_view(),
            wv.len() == words@.len(),
            i <= words@.len(),
            forall|j: int| 0 <= j < i ==> known_word(#[trigger] words@[j]@),
            dirs@ == directions_of(wv.subrange(0, i as int)),
            handle_mode == wv.subrange(0, i as int).contains("handle_mode"@),
        decreases words@.len() - i,
    {
        let ghost pre = wv.subrange(0, i as int);
        let ghost next = wv.subrange(0, i + 1);
        assert(next.drop_last() =~= pre);
        assert(next.last() == words@[i as int]@);
        let w = words[i].as_str();
        match direction_of_word(w) {
            Some(d) => {
                dirs.push(d);
            },
            None => {
                if str_equal(w, "handle_mode") {
                    handle_mode = true;
                } else {
                    assert(!known_word(words@[i as int]@));
                    return Err("Expected 'in', 'out', 'incoming', 'outgoing', 'auto', 'bidirectional', or 'handle_mode'".to_owned());
                }
            },
        }
        proof {
            reveal_strlit("handle_mode");
            reveal_strlit("in");
            reveal_strlit("incoming");
            reveal_strlit("out");
            reveal_strlit("outgoing");
            reveal_strlit("auto");
            reveal_strlit("bidirectional");
            if next.contains("handle_mode"@) && !pre.contains("handle_mode"@) {
                let k = choose|k: int| 0 <= k < next.len() && next[k] == "handle_mode"@;
                if k < i {
                    assert(pre[k] == next[k]);
                }
            }
            if pre.contains("handle_mode"@) {
                let k = choose|k: int| 0 <= k < pre.len() && pre[k] == "handle_mode"@;
                assert(next[k] == pre[k]);
            }
            if w@ == "handle_mode"@ {
                assert(next[i as int] == "handle_mode"@);
            } else {
                assert(next[i as int] != "handle_mode"@);
            }
        }
        i = i + 1;
    }
    assert(wv.subrange(0, i as int) =~= wv);
    Ok((combine_directions(dirs), handle_mode))
}

} // verus!
