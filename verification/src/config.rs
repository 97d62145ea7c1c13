use vstd::prelude::*;

use crate::json::{JsonV, JsonValue};
use crate::num::{ceil_div, floor_div, lemma_multiple_in_range};
use crate::outside::{
    now_formatted, now_rfc3339, push_char, rand_i64_between, rand_usize_between,
};
use crate::text::dec_digit;

verus! {

/// One record of a handled request, appended to the log that the server
/// keeps for its whole lifetime.
#[derive(Debug)]
pub struct RequestLog {
    pub timestamp: String,
    pub method: String,
    pub path: String,
    pub headers: Vec<(String, String)>,
    pub response_status: u16,
}

/// A configuration-supplied generator bound to a field name, taking
/// precedence over schema-driven generation for that name.
///
/// A `Number` pattern rounds to the given number of decimal places; the
/// numeric model holds hundredths, so more than two places round to two.
#[derive(Debug, PartialEq)]
pub enum MockPattern {
    Enum { values: Vec<String> },
    Number { min: Option<i64>, max: Option<i64>, decimals: Option<u32> },
    CreditCard { length: usize },
    DateTime { format: Option<String> },
}

/// Process-wide request behavior: optional artificial delay, fixed status
/// code, fixed extra headers, and per-field generation overrides.
#[derive(Debug)]
pub struct MockConfig {
    pub delay: Option<u64>,
    pub status_code: Option<u16>,
    pub headers: Option<Vec<(String, String)>>,
    pub fields: Option<MockFieldConfig>,
}

/// The field-name override table, loaded once from configuration.
#[derive(Debug)]
pub struct MockFieldConfig {
    pub patterns: Vec<(String, MockPattern)>,
}

/// Everything a request handler reads and the one thing it writes: the
/// immutable route table and configuration, and the growing request log.
#[derive(Debug)]
pub struct MockState {
    pub routes: Vec<crate::routes::Route>,
    pub config: MockConfig,
    pub request_log: Vec<RequestLog>,
}

/// Number of digits in a generated card-like digit string when the
/// configuration does not give one.
pub fn default_card_length() -> (n: usize)
    ensures
        n == 16,
{
    16
}

/// The spacing of the values a `Number` pattern may produce, in
/// hundredths: whole numbers when no decimal places are asked for.
pub open spec fn pattern_gran(decimals: Option<u32>) -> int {
    match decimals {
        None => 100,
        Some(d) => if d == 0 {
            100
        } else if d == 1 {
            10
        } else {
            1
        },
    }
}

/// A number bound with its default: hundredths of 0 and of 100.
pub open spec fn bound_or(b: Option<i64>, dflt: int) -> int {
    match b {
        Some(x) => x as int,
        None => dflt,
    }
}

/// The inputs on which a pattern can produce a value at all: an
/// enumeration must have an entry to pick, and a numeric range must hold a
/// value of the pattern's spacing.
pub open spec fn pattern_wf(p: MockPattern) -> bool {
    match p {
        MockPattern::Enum { values } => values@.len() > 0,
        MockPattern::Number { min, max, decimals } => exists|k: int|
            bound_or(min, 0) <= #[trigger] (k * pattern_gran(decimals)) <= bound_or(max, 10000),
        MockPattern::CreditCard { .. } => true,
        MockPattern::DateTime { .. } => true,
    }
}

/// Whether a character is a decimal digit.
pub open spec fn is_digit(c: char) -> bool {
    exists|d: int| 0 <= d < 10 && c == #[trigger] dec_digit(d)
}

/// What a pattern's one operation can produce: a member of the
/// enumeration, a number of the right spacing within the range, a digit
/// string of the right length, or a timestamp string.
pub open spec fn pattern_output(p: MockPattern, v: JsonV) -> bool {
    match p {
        MockPattern::Enum { values } => exists|i: int|
            0 <= i < values@.len() && v == JsonV::Str(#[trigger] values@[i]@),
        MockPattern::Number { min, max, decimals } => {
            &&& v is Num
            &&& bound_or(min, 0) <= v->Num_0 <= bound_or(max, 10000)
            &&& exists|k: int| v->Num_0 == #[trigger] (k * pattern_gran(decimals))
        },
        MockPattern::CreditCard { length } => {
            &&& v is Str
            &&& v->Str_0.len() == length
            &&& forall|i: int| 0 <= i < v->Str_0.len() ==> is_digit(#[trigger] v->Str_0[i])
        },
        MockPattern::DateTime { .. } => v is Str,
    }
}

impl MockPattern {
    /// Produces one concrete value, independent of any schema: the single
    /// operation a field override exposes.
    pub fn generate_value(&self) -> (v: JsonValue)
        requires
            pattern_wf(*self),
        ensures
            pattern_output(*self, v.m()),
    {
        match self {
            MockPattern::Enum { values } => {
                let idx = rand_usize_between(0, values.len() - 1);
                JsonValue::Str(values[idx].clone())
            },
            MockPattern::Number { min, max, decimals } => {
                let g: i64 = match decimals {
                    None => 100,
                    Some(d) => if *d == 0 {
                        100
                    } else if *d == 1 {
                        10
                    } else {
                        1
                    },
                };
                let lo: i64 = match min {
                    Some(x) => *x,
                    None => 0,
                };
                let hi: i64 = match max {
                    Some(x) => *x,
                    None => 10000,
                };
                let klo = ceil_div(lo, g);
                let khi = floor_div(hi, g);
                proof {
                    lemma_multiple_in_range(
                        lo as int,
                        hi as int,
                        g as int,
                        klo as int,
                        khi as int,
                    );
                }
                let k = rand_i64_between(klo, khi);
                proof {
                    assert(lo as int <= (k as int) * (g as int) <= hi as int)
                        by (nonlinear_arith)
                        requires
                            g as int >= 1,
                            klo as int <= k as int <= khi as int,
                            (klo as int) * (g as int) >= lo as int,
                            (khi as int) * (g as int) <= hi as int,
                    ;
                }
                JsonValue::Num(k * g)
            },
            MockPattern::CreditCard { length } => {
                let n = *length;
                let mut s = String::new();
                let mut i: usize = 0;
                while i < n
                    invariant
                        0 <= i <= n,
                        s@.len() == i,
                        forall|j: int| 0 <= j < i ==> is_digit(#[trigger] s@[j]),
                    decreases n - i,
                {
                    let d = rand_usize_between(0, 9);
                    let c = digit_of(d as u8);
                    push_char(&mut s, c);
                    i = i + 1;
                }
                JsonValue::Str(s)
            },
            MockPattern::DateTime { format } => {
                let text = match format {
                    Some(fmt) => match now_formatted(fmt.as_str()) {
                        Some(t) => t,
                        None => now_rfc3339(),
                    },
                    None => match now_formatted("%Y-%m-%dT%H:%M:%S%.3fZ") {
                        Some(t) => t,
                        None => now_rfc3339(),
                    },
                };
                JsonValue::Str(text)
            },
        }
    }
}

fn digit_of(d: u8) -> (c: char)
    requires
        d < 10,
    ensures
        c == dec_digit(d as int),
        is_digit(c),
{
    let c = match d {
        0 => '0',
        1 => '1',
        2 => '2',
        3 => '3',
        4 => '4',
        5 => '5',
        6 => '6',
        7 => '7',
        8 => '8',
        _ => '9',
    };
    proof {
        assert(c == dec_digit(d as int));
    }
    c
}

} // verus!
