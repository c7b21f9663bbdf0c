//! Shared helpers: the file-name pattern substitution, the search paths for
//! desktop entries and the window-manager script, and the parsing of a
//! number typed into an input box.

use vstd::prelude::*;

use crate::text::{
    chars_to_string, render_u64, replace_all, spec_dec_digits, spec_parse_num, spec_replace_all,
    string_to_chars,
};

verus! {

/// A local calendar timestamp, field by field.
#[derive(Clone, Copy, PartialEq, Eq, Structural, Debug)]
pub struct Timestamp {
    pub year: i32,
    pub month: u8,
    pub day: u8,
    pub hour: u8,
    pub minute: u8,
    pub second: u8,
}

impl Timestamp {
    /// The ranges the clock library documents for its calendar accessors.
    pub open spec fn valid(&self) -> bool {
        &&& -9999 <= self.year <= 9999
        &&& 1 <= self.month <= 12
        &&& 1 <= self.day <= 31
        &&& self.hour < 24
        &&& self.minute < 60
        &&& self.second < 60
    }
}

/// Relies on time::OffsetDateTime::now_local and its calendar accessors:
/// the year stays within ±9999 and month, day, hour, minute and second are
/// calendar values; `None` when the local offset cannot be determined.
#[verifier::external_body]
fn local_timestamp() -> (r: Option<Timestamp>)
    ensures
        r matches Some(t) ==> t.valid(),
{
    match time::OffsetDateTime::now_local() {
        Ok(now) => Some(
            Timestamp {
                year: now.year(),
                month: now.month() as u8,
                day: now.day(),
                hour: now.hour(),
                minute: now.minute(),
                second: now.second(),
            },
        ),
        Err(_) => None,
    }
}

/// The decimal rendering of a possibly negative number.
pub open spec fn spec_signed_digits(v: int) -> Seq<char> {
    if v < 0 {
        seq!['-'] + spec_dec_digits((-v) as nat)
    } else {
        spec_dec_digits(v as nat)
    }
}

/// Renders a number within the calendar-year range in decimal.
fn render_i32(v: i32) -> (r: Vec<char>)
    ensures
        r@ == spec_signed_digits(v as int),
{
    if v < 0 {
        let mut out: Vec<char> = Vec::new();
        out.push('-');
        let ghost first = out@;
        let digits = render_u64((-(v as i64)) as u64);
        let mut k: usize = 0;
        while k < digits.len()
            invariant
                0 <= k <= digits@.len(),
                out@ =~= first + digits@.take(k as int),
            decreases digits.len() - k,
        {
            out.push(digits[k]);
            k += 1;
        }
        proof {
            assert(out@ =~= seq!['-'] + digits@);
        }
        out
    } else {
        render_u64(v as u64)
    }
}

/// The pattern with every placeholder substituted: the application name and
/// each timestamp field, in decimal.
pub open spec fn spec_apply_pattern(pattern: Seq<char>, app_name: Seq<char>, t: Timestamp) -> Seq<
    char,
> {
    let s1 = spec_replace_all(pattern, "%app%"@, app_name);
    let s2 = spec_replace_all(s1, "%year%"@, spec_signed_digits(t.year as int));
    let s3 = spec_replace_all(s2, "%month%"@, spec_dec_digits(t.month as nat));
    let s4 = spec_replace_all(s3, "%day%"@, spec_dec_digits(t.day as nat));
    let s5 = spec_replace_all(s4, "%hour%"@, spec_dec_digits(t.hour as nat));
    let s6 = spec_replace_all(s5, "%minute%"@, spec_dec_digits(t.minute as nat));
    spec_replace_all(s6, "%second%"@, spec_dec_digits(t.second as nat))
}

/// Substitutes the `%app%`, `%year%`, `%month%`, `%day%`, `%hour%`,
/// `%minute%` and `%second%` placeholders of a file-name pattern.
pub fn apply_pattern(pattern: &String, app_name: &String, t: &Timestamp) -> (r: String)
    ensures
        r@ == spec_apply_pattern(pattern@, app_name@, *t),
{
    let mut s = string_to_chars(pattern.as_str());
    s = replace_all(&s, &string_to_chars("%app%"), &string_to_chars(app_name.as_str()));
    s = replace_all(&s, &string_to_chars("%year%"), &render_i32(t.year));
    s = replace_all(&s, &string_to_chars("%month%"), &render_u64(t.month as u64));
    s = replace_all(&s, &string_to_chars("%day%"), &render_u64(t.day as u64));
    s = replace_all(&s, &string_to_chars("%hour%"), &render_u64(t.hour as u64));
    s = replace_all(&s, &string_to_chars("%minute%"), &render_u64(t.minute as u64));
    s = replace_all(&s, &string_to_chars("%second%"), &render_u64(t.second as u64));
    chars_to_string(&s)
}

/// Substitutes the pattern placeholders with the application name and the
/// local time now; `None` when the local time cannot be determined.
pub fn process_pattern(pattern: &String, app_name: &String) -> (r: Option<String>)
    ensures
        r matches Some(s) ==> exists|t: Timestamp|
            t.valid() && s@ == #[trigger] spec_apply_pattern(pattern@, app_name@, t),
{
    match local_timestamp() {
        Some(t) => {
            let s = apply_pattern(pattern, app_name, &t);
            proof {
                assert(s@ == spec_apply_pattern(pattern@, app_name@, t));
            }
            Some(s)
        },
        None => None,
    }
}

/// The paths where the desktop entry of an application may sit, in the order
/// they are probed: the system directory, the per-user data directory, the
/// flatpak exports, and the bare name.
pub fn desktop_entry_candidates(desktop_file: &String, data_dir: &String) -> (r: Vec<String>)
    ensures
        r@.len() == 4,
        r@[0]@ == "/usr/share/applications/"@ + desktop_file@ + ".desktop"@,
        r@[1]@ == data_dir@ + "/applications/"@ + desktop_file@ + ".desktop"@,
        r@[2]@ == "/var/lib/flatpak/exports/share/applications/"@ + desktop_file@ + ".desktop"@,
        r@[3]@ == desktop_file@ + ".desktop"@,
{
    let mut out: Vec<String> = Vec::new();
    out.push(
        String::from_str("/usr/share/applications/").concat(desktop_file.as_str()).concat(
            ".desktop",
        ),
    );
    out.push(
        data_dir.clone().concat("/applications/").concat(desktop_file.as_str()).concat(".desktop"),
    );
    out.push(
        String::from_str("/var/lib/flatpak/exports/share/applications/").concat(
            desktop_file.as_str(),
        ).concat(".desktop"),
    );
    out.push(desktop_file.clone().concat(".desktop"));
    out
}

/// The paths where the window-manager script may sit, in the order they are
/// probed: the system location, then the local build next to the working
/// directory the caller supplies.
pub fn script_path_candidates(local_path: &String) -> (r: Vec<String>)
    ensures
        r@.len() == 2,
        r@[0]@ == "/usr/share/trayplay/kwin_script.js"@,
        r@[1]@ == local_path@,
{
    let mut out: Vec<String> = Vec::new();
    out.push(String::from_str("/usr/share/trayplay/kwin_script.js"));
    out.push(local_path.clone());
    out
}

/// Of the candidates that exist (`exists[i]` says whether candidate `i`
/// does), the index of the last one, as the probing folds later hits over
/// earlier ones; `None` when none exists.
pub fn pick_existing(exists_flags: &Vec<bool>) -> (r: Option<usize>)
    ensures
        match r {
            Some(j) => j < exists_flags@.len() && exists_flags@[j as int] && forall|k: int|
                j < k < exists_flags@.len() ==> !exists_flags@[k],
            None => forall|k: int| 0 <= k < exists_flags@.len() ==> !exists_flags@[k],
        },
{
    let mut i: usize = exists_flags.len();
    while i > 0
        invariant
            0 <= i <= exists_flags@.len(),
            forall|k: int| i <= k < exists_flags@.len() ==> !exists_flags@[k],
        decreases i,
    {
        if exists_flags[i - 1] {
            return Some(i - 1);
        }
        i -= 1;
    }
    None
}

/// A number typed into an input box: newlines are dropped, then an optional
/// leading minus sign and at most nineteen decimal digits are accepted.
pub open spec fn spec_parse_i64(s: Seq<char>) -> Option<int> {
    if s.len() >= 1 && s[0] == '-' {
        match spec_parse_num(s.skip(1)) {
            Some(v) => if v <= 0x8000000000000000 {
                Some(-v)
            } else {
                None
            },
            None => None,
        }
    } else {
        match spec_parse_num(s) {
            Some(v) => if v <= 0x7fffffffffffffff {
                Some(v)
            } else {
                None
            },
            None => None,
        }
    }
}

/// Parses the text typed into the custom-number input box: newlines are
/// removed as the dialog appends one, the rest must be an optionally signed
/// decimal number that fits a 64-bit signed integer.
pub fn parse_number_input(s: &String) -> (r: Option<i64>)
    ensures
        match r {
            Some(v) => spec_parse_i64(spec_replace_all(s@, "\n"@, Seq::empty())) == Some(v as int),
            None => spec_parse_i64(spec_replace_all(s@, "\n"@, Seq::empty())) is None,
        },
{
    let chars = string_to_chars(s.as_str());
    let empty_repl: Vec<char> = Vec::new();
    let cleaned = replace_all(&chars, &string_to_chars("\n"), &empty_repl);
    if cleaned.len() >= 1 && cleaned[0] == '-' {
        let mut digits: Vec<char> = Vec::new();
        let mut k: usize = 1;
        while k < cleaned.len()
            invariant
                1 <= k <= cleaned@.len(),
                cleaned@.len() >= 1,
                digits@ =~= cleaned@.skip(1).take(k - 1),
            decreases cleaned.len() - k,
        {
            digits.push(cleaned[k]);
            proof {
                assert(cleaned@.skip(1)[k - 1] == cleaned@[k as int]);
            }
            k += 1;
        }
        proof {
            assert(digits@ =~= cleaned@.skip(1));
        }
        match crate::text::parse_num(&digits) {
            Some(v) => {
                if v <= 0x8000000000000000 {
                    if v == 0x8000000000000000 {
                        Some(i64::MIN)
                    } else {
                        Some(-(v as i64))
                    }
                } else {
                    None
                }
            },
            None => {
                proof {
                    if spec_parse_num(digits@) matches Some(v) {
                        crate::text::lemma_digits_val_bound(digits@);
                        crate::text::lemma_pow10_19();
                        crate::text::lemma_pow10_increases(digits@.len(), 19);
                    }
                }
                None
            },
        }
    } else {
        match crate::text::parse_num(&cleaned) {
            Some(v) => {
                if v <= 0x7fffffffffffffff {
                    Some(v as i64)
                } else {
                    None
                }
            },
            None => {
                proof {
                    if spec_parse_num(cleaned@) matches Some(v) {
                        crate::text::lemma_digits_val_bound(cleaned@);
                        crate::text::lemma_pow10_19();
                        crate::text::lemma_pow10_increases(cleaned@.len(), 19);
                    }
                }
                None
            },
        }
    }
}

} // verus!
