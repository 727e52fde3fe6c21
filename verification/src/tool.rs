//! Function-tool support: typed argument parsing and the argument-ordering
//! step that lines a tool call's named arguments up with the tool's
//! declared parameter list.

use vstd::prelude::*;
use crate::text::{
    all_digits, digit_value, digits_value, is_digit_char, lemma_digits_value_extend,
    lemma_digits_value_prefix_le, str_eq,
};

verus! {

/// Error reported when a tool argument cannot be parsed or is missing.
#[derive(Debug)]
pub struct FunctionToolError(pub String);

impl FunctionToolError {
    /// The error text carried by this error.
    pub fn message(&self) -> (r: &String)
        ensures
            r == self.0,
    {
        &self.0
    }
}

/// One call requested by a model: the tool's name, its arguments as an
/// object of string-valued members, and the declared return type.
#[derive(Debug)]
pub struct FunctionCallInput {
    pub function_name: String,
    pub arguments_obj: Vec<(String, String)>,
    pub return_type: String,
}

/// Mathematical image of a [`FunctionCallInput`].
#[verifier::ext_equal]
pub struct FunctionCallInputView {
    pub function_name: Seq<char>,
    pub arguments_obj: Seq<(Seq<char>, Seq<char>)>,
    pub return_type: Seq<char>,
}

impl View for FunctionCallInput {
    type V = FunctionCallInputView;

    open spec fn view(&self) -> FunctionCallInputView {
        FunctionCallInputView {
            function_name: self.function_name@,
            arguments_obj: self.arguments_obj@.map_values(|p: (String, String)| (p.0@, p.1@)),
            return_type: self.return_type@,
        }
    }
}

impl Clone for FunctionCallInput {
    fn clone(&self) -> (r: Self)
        ensures
            r@ == self@,
    {
        let r = FunctionCallInput {
            function_name: self.function_name.clone(),
            arguments_obj: clone_string_pairs(&self.arguments_obj),
            return_type: self.return_type.clone(),
        };
        proof {
            assert(r@ =~= self@);
        }
        r
    }
}

/// A registered tool: its name, a human description, and the JSON texts
/// that describe it to a model.
#[derive(Debug)]
pub struct Tool {
    pub name: String,
    pub description: String,
    pub tool_meta: String,
    pub parameters: String,
}

/// An element-for-element copy of a vector of string pairs.
pub fn clone_string_pairs(v: &Vec<(String, String)>) -> (r: Vec<(String, String)>)
    ensures
        r@ == v@,
{
    let mut r: Vec<(String, String)> = Vec::new();
    let mut i: usize = 0;
    while i < v.len()
        invariant
            i <= v@.len(),
            r@ == v@.subrange(0, i as int),
        decreases v@.len() - i,
    {
        let p = &v[i];
        r.push((p.0.clone(), p.1.clone()));
        proof {
            assert(r@ =~= v@.subrange(0, i + 1));
        }
        i = i + 1;
    }
    proof {
        assert(v@.subrange(0, v@.len() as int) =~= v@);
    }
    r
}

/// The meaning of a string as a decimal 32-bit integer: an optional sign,
/// at least one digit, and a value within `i32` range; anything else has no
/// meaning.
pub open spec fn parse_i32_spec(s: Seq<char>) -> Option<i32> {
    let neg = s.len() > 0 && s[0] == '-';
    let signed = s.len() > 0 && (s[0] == '-' || s[0] == '+');
    let body = if signed {
        s.drop_first()
    } else {
        s
    };
    if body.len() == 0 || !all_digits(body) {
        None
    } else {
        let v = if neg {
            -digits_value(body)
        } else {
            digits_value(body)
        };
        if i32::MIN <= v <= i32::MAX {
            Some(v as i32)
        } else {
            None
        }
    }
}

/// Parses a decimal 32-bit integer, accepting exactly the strings that
/// [`parse_i32_spec`] gives a value.
pub fn parse_i32(arg_value: &str) -> (r: Result<i32, FunctionToolError>)
    ensures
        r is Ok <==> parse_i32_spec(arg_value@) is Some,
        r is Ok ==> parse_i32_spec(arg_value@) == Some(r->Ok_0),
{
    let n = arg_value.unicode_len();
    let mut start: usize = 0;
    let mut neg = false;
    if n > 0 {
        let c0 = arg_value.get_char(0);
        if c0 == '-' {
            neg = true;
            start = 1;
        } else if c0 == '+' {
            start = 1;
        }
    }
    let ghost body = if start == 1 {
        arg_value@.drop_first()
    } else {
        arg_value@
    };
    proof {
        assert(body =~= arg_value@.subrange(start as int, n as int));
    }
    if start == n {
        return Err(FunctionToolError(String::from_str("Expected i32 for argument")));
    }
    let mut acc: i64 = 0;
    let mut i: usize = start;
    while i < n
        invariant
            n == arg_value@.len(),
            start <= i <= n,
            start <= 1,
            start < n,
            (start == 1) <==> (arg_value@.len() > 0 && (arg_value@[0] == '-' || arg_value@[0]
                == '+')),
            neg <==> (arg_value@.len() > 0 && arg_value@[0] == '-'),
            body == arg_value@.subrange(start as int, n as int),
            all_digits(body.subrange(0, i - start)),
            acc == digits_value(body.subrange(0, i - start)),
            0 <= acc <= 2147483648,
        decreases n - i,
    {
        let c = arg_value.get_char(i);
        let cu = c as u32;
        if cu < '0' as u32 || cu > '9' as u32 {
            proof {
                assert(body[i - start] == arg_value@[i as int]);
                assert(!is_digit_char(body[i - start]));
                assert(!all_digits(body));
            }
            return Err(FunctionToolError(String::from_str("Expected i32 for argument")));
        }
        let d = cu - '0' as u32;
        proof {
            lemma_digits_value_extend(body, i - start);
            assert(body.subrange(0, i - start + 1).drop_last() =~= body.subrange(0, i - start));
            assert(body[i - start] == arg_value@[i as int]);
            assert(cu as int == c as int);
            assert(d as int == digit_value(body[i - start]));
        }
        acc = acc * 10 + (d as i64);
        proof {
            assert(acc == digits_value(body.subrange(0, i - start + 1)));
        }
        if acc > 2147483648 {
            proof {
                let k = i - start + 1;
                assert(all_digits(body.subrange(0, k))) by {
                    assert(forall|q: int|
                        0 <= q < k ==> body.subrange(0, k)[q] == #[trigger] body[q]);
                }
                if all_digits(body) {
                    lemma_digits_value_prefix_le(body, k);
                    assert(body.subrange(0, body.len() as int) =~= body);
                    assert(digits_value(body) > 2147483648);
                    let s = arg_value@;
                    let signed_s = s.len() > 0 && (s[0] == '-' || s[0] == '+');
                    let body_s = if signed_s {
                        s.drop_first()
                    } else {
                        s
                    };
                    assert(body_s == body);
                    assert(body_s.len() > 0);
                    let v = if neg {
                        -digits_value(body_s)
                    } else {
                        digits_value(body_s)
                    };
                    assert(!(i32::MIN <= v && v <= i32::MAX));
                    assert(parse_i32_spec(arg_value@) is None);
                }
            }
            return Err(FunctionToolError(String::from_str("Expected i32 for argument")));
        }
        i = i + 1;
    }
    proof {
        assert(body.subrange(0, (n - start) as int) =~= body);
        assert(all_digits(body));
        assert(digits_value(body) == acc);
    }
    if neg {
        Ok((0i64 - acc) as i32)
    } else {
        if acc > 2147483647 {
            return Err(FunctionToolError(String::from_str("Expected i32 for argument")));
        }
        Ok(acc as i32)
    }
}

/// Parses a boolean: exactly the strings `true` and `false` are accepted.
pub fn parse_bool(arg_value: &str) -> (r: Result<bool, FunctionToolError>)
    ensures
        arg_value@ == "true"@ ==> r == Result::<bool, FunctionToolError>::Ok(true),
        arg_value@ == "false"@ ==> r == Result::<bool, FunctionToolError>::Ok(false),
        arg_value@ != "true"@ && arg_value@ != "false"@ ==> r is Err,
{
    proof {
        reveal_strlit("true");
        reveal_strlit("false");
        assert("true"@.len() == 4);
        assert("false"@.len() == 5);
    }
    if str_eq(arg_value, "true") {
        Ok(true)
    } else if str_eq(arg_value, "false") {
        Ok(false)
    } else {
        Err(FunctionToolError(String::from_str("Expected bool for argument")))
    }
}

/// Accepts any string argument, handing back an owned copy of it.
pub fn parse_string(arg_value: &str) -> (r: Result<String, FunctionToolError>)
    ensures
        r is Ok && r->Ok_0@ == arg_value@,
{
    Ok(arg_value.to_owned())
}

/// A toy weather tool: it only knows the forecast for New York.
pub fn get_current_weather(location: String, unit: String) -> (r: Result<String, String>)
    ensures
        location@ == "New York"@ ==> r is Ok && r->Ok_0@ == "Weather for "@ + location@ + " in "@
            + unit@,
        location@ != "New York"@ ==> r is Err && r->Err_0@ == "I only forecast New York"@,
{
    if str_eq(location.as_str(), "New York") {
        let mut out = String::from_str("Weather for ");
        out.append(location.as_str());
        out.append(" in ");
        out.append(unit.as_str());
        Ok(out)
    } else {
        Err(String::from_str("I only forecast New York"))
    }
}

/// The value of the first member of `pairs` whose key reads `name`.
pub open spec fn find_value(pairs: Seq<(String, String)>, name: Seq<char>) -> Option<String>
    decreases pairs.len(),
{
    if pairs.len() == 0 {
        None
    } else if pairs[0].0@ == name {
        Some(pairs[0].1)
    } else {
        find_value(pairs.drop_first(), name)
    }
}

/// The values of `pairs` lined up with `names`, in the order of `names`;
/// nothing if any name is missing.
pub open spec fn ordered_values(names: Seq<String>, pairs: Seq<(String, String)>) -> Option<
    Seq<String>,
>
    decreases names.len(),
{
    if names.len() == 0 {
        Some(Seq::empty())
    } else {
        match ordered_values(names.drop_last(), pairs) {
            None => None,
            Some(rest) => match find_value(pairs, names.last()@) {
                None => None,
                Some(v) => Some(rest.push(v)),
            },
        }
    }
}

/// A missing prefix name keeps the whole line-up missing.
proof fn lemma_ordered_values_none_extends(names: Seq<String>, pairs: Seq<(String, String)>, k: int)
    requires
        0 <= k <= names.len(),
        ordered_values(names.subrange(0, k), pairs) is None,
    ensures
        ordered_values(names, pairs) is None,
    decreases names.len() - k,
{
    if k == names.len() {
        assert(names.subrange(0, k) =~= names);
    } else {
        assert(names.subrange(0, k + 1).drop_last() =~= names.subrange(0, k));
        lemma_ordered_values_none_extends(names, pairs, k + 1);
    }
}

/// The value of the first member of `pairs` whose key reads `name`, found
/// by scanning in order.
pub fn find_argument(pairs: &Vec<(String, String)>, name: &str) -> (r: Option<String>)
    ensures
        r == find_value(pairs@, name@),
{
    proof {
        assert(pairs@.subrange(0, pairs@.len() as int) =~= pairs@);
    }
    let mut j: usize = 0;
    while j < pairs.len()
        invariant
            j <= pairs@.len(),
            find_value(pairs@, name@) == find_value(
                pairs@.subrange(j as int, pairs@.len() as int),
                name@,
            ),
        decreases pairs@.len() - j,
    {
        let p = &pairs[j];
        proof {
            let rest = pairs@.subrange(j as int, pairs@.len() as int);
            assert(rest[0] == pairs@[j as int]);
            assert(rest.drop_first() =~= pairs@.subrange(j + 1, pairs@.len() as int));
        }
        if str_eq(p.0.as_str(), name) {
            return Some(p.1.clone());
        }
        j = j + 1;
    }
    None
}

/// Lines the provided named arguments up with the declared parameter names,
/// in declaration order; reports the first missing name as an error.
pub fn order_arguments(arg_names: &Vec<String>, provided: &Vec<(String, String)>) -> (r: Result<
    Vec<String>,
    FunctionToolError,
>)
    ensures
        r is Ok <==> ordered_values(arg_names@, provided@) is Some,
        r is Ok ==> ordered_values(arg_names@, provided@) == Some(r->Ok_0@),
{
    let mut out: Vec<String> = Vec::new();
    let mut i: usize = 0;
    while i < arg_names.len()
        invariant
            i <= arg_names@.len(),
            ordered_values(arg_names@.subrange(0, i as int), provided@) == Some(out@),
        decreases arg_names@.len() - i,
    {
        proof {
            assert(arg_names@.subrange(0, i + 1).drop_last() =~= arg_names@.subrange(0, i as int));
            assert(arg_names@.subrange(0, i + 1).last() == arg_names@[i as int]);
        }
        match find_argument(provided, arg_names[i].as_str()) {
            Some(v) => {
                out.push(v);
            },
            None => {
                proof {
                    lemma_ordered_values_none_extends(arg_names@, provided@, i + 1);
                }
                let mut msg = String::from_str("Missing argument: ");
                msg.append(arg_names[i].as_str());
                return Err(FunctionToolError(msg));
            },
        }
        i = i + 1;
    }
    proof {
        assert(arg_names@.subrange(0, arg_names@.len() as int) =~= arg_names@);
    }
    Ok(out)
}

} // verus!
