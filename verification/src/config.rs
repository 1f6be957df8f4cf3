//! Application configuration values and the validation of what the
//! configuration dialog collects: a player name and a window size
//! typed as text.
//!
//! Reading and writing the configuration file, and the dialog itself,
//! live outside this crate; this crate owns the values, the digit
//! masking of the size fields, and the conversions between the typed
//! text and the stored numbers.

use vstd::prelude::*;
use vstd::string::{StrSliceExecFns, StringExecFns};

verus! {

/// Whether a character is a decimal digit.
pub open spec fn spec_is_digit(c: char) -> bool {
    48 <= c as u32 <= 57
}

/// The decimal digits of a string, in order, everything else dropped.
pub open spec fn spec_digits_of(s: Seq<char>) -> Seq<char> {
    s.filter(|c: char| spec_is_digit(c))
}

/// Every character of a masked string is a digit.
proof fn lemma_digits_of_digits(s: Seq<char>)
    ensures
        forall|i: int|
            0 <= i < spec_digits_of(s).len() ==> spec_is_digit(#[trigger] spec_digits_of(s)[i]),
    decreases s.len(),
{
    reveal(Seq::filter);
    if s.len() > 0 {
        lemma_digits_of_digits(s.drop_last());
    }
}

/// The digit character for a value below ten.
pub open spec fn spec_digit_char(d: int) -> char
    recommends
        0 <= d <= 9,
{
    ((48 + d) as u8) as char
}

/// The decimal digits of a non-negative number, most significant
/// first.
pub open spec fn spec_dec_chars(n: int) -> Seq<char>
    recommends
        n >= 0,
    decreases n,
{
    if n < 10 {
        seq![spec_digit_char(n)]
    } else {
        spec_dec_chars(n / 10).push(spec_digit_char(n % 10))
    }
}

/// The numeric value of a digit string.
pub open spec fn spec_parse_val(s: Seq<char>) -> int
    decreases s.len(),
{
    if s.len() == 0 {
        0
    } else {
        spec_parse_val(s.drop_last()) * 10 + (s.last() as u32 - 48)
    }
}

/// The numeric value of a digit string, saturated to what fits a
/// 32-bit number.
pub open spec fn spec_parse_u32_saturating(s: Seq<char>) -> u32 {
    if spec_parse_val(s) > 0xFFFF_FFFF {
        0xFFFF_FFFFu32
    } else {
        spec_parse_val(s) as u32
    }
}

/// The one-character string for a digit value.
fn digit_str(d: u8) -> (r: &'static str)
    requires
        d < 10,
    ensures
        r@ == seq![spec_digit_char(d as int)],
{
    let r: &'static str = match d {
        0 => "0",
        1 => "1",
        2 => "2",
        3 => "3",
        4 => "4",
        5 => "5",
        6 => "6",
        7 => "7",
        8 => "8",
        _ => "9",
    };
    proof {
        reveal_strlit("0");
        reveal_strlit("1");
        reveal_strlit("2");
        reveal_strlit("3");
        reveal_strlit("4");
        reveal_strlit("5");
        reveal_strlit("6");
        reveal_strlit("7");
        reveal_strlit("8");
        reveal_strlit("9");
        assert(r@ =~= seq![spec_digit_char(d as int)]);
    }
    r
}

/// Format a number as decimal text.
pub fn u32_to_dec_string(n: u32) -> (s: String)
    ensures
        s@ == spec_dec_chars(n as int),
    decreases n,
{
    if n < 10 {
        let mut s = String::new();
        s.append(digit_str(n as u8));
        proof {
            assert(s@ =~= spec_dec_chars(n as int));
        }
        s
    } else {
        let mut s = u32_to_dec_string(n / 10);
        s.append(digit_str((n % 10) as u8));
        proof {
            assert(s@ =~= spec_dec_chars(n as int));
        }
        s
    }
}

/// Parse decimal text back into a number, saturating at the largest
/// 32-bit value.
pub fn parse_u32_saturating(s: &str) -> (r: u32)
    requires
        forall|i: int| 0 <= i < s@.len() ==> spec_is_digit(#[trigger] s@[i]),
    ensures
        r == spec_parse_u32_saturating(s@),
{
    let n = s.unicode_len();
    let mut acc: u64 = 0;
    let mut i: usize = 0;
    proof {
        assert(s@.subrange(0, 0) =~= Seq::<char>::empty());
    }
    while i < n
        invariant
            n == s@.len(),
            i <= n,
            forall|k: int| 0 <= k < s@.len() ==> spec_is_digit(#[trigger] s@[k]),
            acc <= 0x1_0000_0000,
            spec_parse_val(s@.subrange(0, i as int)) <= 0xFFFF_FFFF ==> acc == spec_parse_val(
                s@.subrange(0, i as int),
            ),
            spec_parse_val(s@.subrange(0, i as int)) > 0xFFFF_FFFF ==> acc == 0x1_0000_0000,
        decreases n - i,
    {
        let c = s.get_char(i);
        let d = (c as u32) - 48;
        acc = acc * 10 + (d as u64);
        if acc > 0xFFFF_FFFF {
            acc = 0x1_0000_0000;
        }
        proof {
            assert(s@.subrange(0, (i + 1) as int).drop_last() =~= s@.subrange(0, i as int));
            assert(s@.subrange(0, (i + 1) as int).last() == s@[i as int]);
        }
        i = i + 1;
    }
    proof {
        assert(s@.subrange(0, s@.len() as int) =~= s@);
    }
    if acc > 0xFFFF_FFFF {
        0xFFFF_FFFF
    } else {
        acc as u32
    }
}

/// Relies on `regex::Regex::new` and `regex::Regex::replace_all`:
/// the pattern matches maximal runs of characters outside `0-9`, and
/// replacing every match with the empty string leaves exactly the
/// decimal digits of the input, in order.
#[verifier::external_body]
fn strip_non_digits(s: &str) -> (r: String)
    ensures
        r@ == spec_digits_of(s@),
{
    let re = regex::Regex::new("[^0-9]+").expect("digit mask pattern");
    re.replace_all(s, "").into_owned()
}

/// Keep only the decimal digits of a text field.
pub fn only_numbers_mask(s: &mut String)
    ensures
        final(s)@ == spec_digits_of(old(s)@),
{
    *s = strip_non_digits(s.as_str());
}

/// The persisted application settings.
pub struct AppParams {
    pub player_name: String,
    pub window_width: u32,
    pub window_height: u32,
    /// An alternate configuration path given on the command line.
    pub config_file: Option<String>,
    /// Whether the settings differ from what is on disk.
    pub changed: bool,
}

impl AppParams {
    /// An independent copy of the settings.
    pub fn dup(&self) -> (r: AppParams)
        ensures
            r.player_name@ == self.player_name@,
            r.window_width == self.window_width,
            r.window_height == self.window_height,
            match self.config_file {
                Some(p) => r.config_file matches Some(q) && q@ == p@,
                None => r.config_file is None,
            },
            r.changed == self.changed,
    {
        AppParams {
            player_name: self.player_name.clone(),
            window_width: self.window_width,
            window_height: self.window_height,
            config_file: match &self.config_file {
                Some(p) => Some(p.clone()),
                None => None,
            },
            changed: self.changed,
        }
    }

    /// The settings used when no configuration can be read: a
    /// placeholder name and a small window, marked as unsaved.
    pub fn default() -> (r: AppParams)
        ensures
            r.player_name@ == "player1"@,
            r.window_width == 640,
            r.window_height == 480,
            r.config_file is None,
            r.changed == true,
    {
        AppParams {
            player_name: String::from_str("player1"),
            window_width: 640,
            window_height: 480,
            config_file: None,
            changed: true,
        }
    }
}

/// The settings as typed into the configuration dialog: free text,
/// validated and masked before it is taken over.
pub struct AppParamsInput {
    pub player_name: String,
    pub window_size_x: String,
    pub window_size_y: String,
}

impl AppParamsInput {
    /// The dialog text for the current settings.
    pub fn new(app_params: &AppParams) -> (r: AppParamsInput)
        ensures
            r.player_name@ == app_params.player_name@,
            r.window_size_x@ == spec_dec_chars(app_params.window_width as int),
            r.window_size_y@ == spec_dec_chars(app_params.window_height as int),
    {
        AppParamsInput {
            player_name: app_params.player_name.clone(),
            window_size_x: u32_to_dec_string(app_params.window_width),
            window_size_y: u32_to_dec_string(app_params.window_height),
        }
    }

    /// Refresh the dialog text from the current settings.
    pub fn from(&mut self, app_params: &AppParams)
        ensures
            final(self).player_name@ == app_params.player_name@,
            final(self).window_size_x@ == spec_dec_chars(app_params.window_width as int),
            final(self).window_size_y@ == spec_dec_chars(app_params.window_height as int),
    {
        self.player_name = app_params.player_name.clone();
        self.window_size_x = u32_to_dec_string(app_params.window_width);
        self.window_size_y = u32_to_dec_string(app_params.window_height);
    }

    /// Take validated dialog text over into the settings; the size
    /// fields must already be masked to digits. The saved path and
    /// the change flag are not the dialog's to touch.
    pub fn to(&self, app_params: &mut AppParams)
        requires
            self.window_size_x@.len() >= 1,
            self.window_size_y@.len() >= 1,
            forall|i: int|
                0 <= i < self.window_size_x@.len() ==> spec_is_digit(
                    #[trigger] self.window_size_x@[i],
                ),
            forall|i: int|
                0 <= i < self.window_size_y@.len() ==> spec_is_digit(
                    #[trigger] self.window_size_y@[i],
                ),
        ensures
            final(app_params).player_name@ == self.player_name@,
            final(app_params).window_width == spec_parse_u32_saturating(self.window_size_x@),
            final(app_params).window_height == spec_parse_u32_saturating(self.window_size_y@),
            final(app_params).config_file == old(app_params).config_file,
            final(app_params).changed == old(app_params).changed,
    {
        app_params.player_name = self.player_name.clone();
        app_params.window_width = parse_u32_saturating(self.window_size_x.as_str());
        app_params.window_height = parse_u32_saturating(self.window_size_y.as_str());
    }
}

/// Validate the dialog text: the player name needs at least four
/// characters; both size fields are masked to their digits and need
/// at least three of them (a size of at least 100). Masking is the
/// only change made, and only once the name passes.
pub fn validate_ok(app_params: &mut AppParamsInput) -> (r: bool)
    ensures
        final(app_params).player_name@ == old(app_params).player_name@,
        old(app_params).player_name@.len() < 4 ==> r == false && final(app_params).window_size_x@
            == old(app_params).window_size_x@ && final(app_params).window_size_y@ == old(
            app_params,
        ).window_size_y@,
        old(app_params).player_name@.len() >= 4 ==> {
            &&& final(app_params).window_size_x@ == spec_digits_of(old(app_params).window_size_x@)
            &&& final(app_params).window_size_y@ == spec_digits_of(old(app_params).window_size_y@)
            &&& r == (spec_digits_of(old(app_params).window_size_x@).len() >= 3 && spec_digits_of(
                old(app_params).window_size_y@,
            ).len() >= 3)
            &&& forall|i: int|
                0 <= i < final(app_params).window_size_x@.len() ==> spec_is_digit(
                    #[trigger] final(app_params).window_size_x@[i],
                )
            &&& forall|i: int|
                0 <= i < final(app_params).window_size_y@.len() ==> spec_is_digit(
                    #[trigger] final(app_params).window_size_y@[i],
                )
        },
{
    if app_params.player_name.as_str().unicode_len() < 4 {
        return false;
    }
    proof {
        lemma_digits_of_digits(app_params.window_size_x@);
        lemma_digits_of_digits(app_params.window_size_y@);
    }
    only_numbers_mask(&mut app_params.window_size_x);
    only_numbers_mask(&mut app_params.window_size_y);
    if app_params.window_size_x.as_str().unicode_len() < 3 {
        return false;
    }
    if app_params.window_size_y.as_str().unicode_len() < 3 {
        return false;
    }
    true
}

} // verus!
