//! From a report to what is shown: a block of text, a symbol for the
//! temperature and a colour for the sky.

use crate::figure::{one_decimal, one_decimal_text};
use crate::reading::{lemma_compare_whole, unit_scale, Reading};
use crate::report::{ReportView, WeatherReport};
use crate::text::same_text;
use vstd::arithmetic::power2::*;
use vstd::prelude::*;
use vstd::string::*;

verus! {

/// The colour in which a block of text is to be shown.
#[derive(Clone, Copy, Debug, PartialEq, Eq, Structural)]
pub enum ColorTag {
    BrightYellow,
    BrightBlue,
    Dimmed,
    BrightCyan,
    Plain,
}

/// The range of temperatures that share a symbol.
#[derive(Clone, Copy, Debug, PartialEq, Eq, Structural)]
pub enum TempBucket {
    /// Below 0 degrees.
    Freezing,
    /// From 0 up to, not including, 10 degrees.
    Cold,
    /// From 10 up to, not including, 20 degrees.
    Mild,
    /// From 20 up to, not including, 30 degrees.
    Warm,
    /// 30 degrees and above; also a temperature that is no number.
    Hot,
}

/// Text and colour, ready for the terminal.
#[derive(Debug)]
pub struct DisplayBlock {
    pub text: String,
    pub color_tag: ColorTag,
}

/// The bit pattern of 10 as a binary64 value.
pub const TEN_DEGREES: u64 = 0x4024_0000_0000_0000;

/// The bit pattern of 20 as a binary64 value.
pub const TWENTY_DEGREES: u64 = 0x4034_0000_0000_0000;

/// The bit pattern of 30 as a binary64 value.
pub const THIRTY_DEGREES: u64 = 0x403E_0000_0000_0000;

/// The bucket of a temperature: the first of the five ranges that holds it.
pub open spec fn bucket_of(temperature: Reading) -> TempBucket {
    if temperature.below(0) {
        TempBucket::Freezing
    } else if temperature.at_least(0) && temperature.below(10) {
        TempBucket::Cold
    } else if temperature.at_least(10) && temperature.below(20) {
        TempBucket::Mild
    } else if temperature.at_least(20) && temperature.below(30) {
        TempBucket::Warm
    } else {
        TempBucket::Hot
    }
}

/// The symbol of a bucket: snowflake, cloud, sun behind cloud, sun behind
/// small cloud, fire.
pub open spec fn emoji_of(bucket: TempBucket) -> Seq<char> {
    match bucket {
        TempBucket::Freezing => "\u{2744}\u{fe0f}"@,
        TempBucket::Cold => "\u{2601}\u{fe0f}"@,
        TempBucket::Mild => "\u{26c5}"@,
        TempBucket::Warm => "\u{1f324}\u{fe0f}"@,
        TempBucket::Hot => "\u{1f525}"@,
    }
}

/// The colour of a description: a closed table, matched letter for letter.
pub open spec fn color_of(description: Seq<char>) -> ColorTag {
    if description == "clear sky"@ {
        ColorTag::BrightYellow
    } else if description == "few clouds"@ || description == "scattered clouds"@ || description
        == "broken clouds"@ {
        ColorTag::BrightBlue
    } else if description == "overcast clouds"@ || description == "mist"@ || description == "haze"@
        || description == "smoke"@ || description == "sand"@ || description == "dust"@
        || description == "fog"@ || description == "squalls"@ {
        ColorTag::Dimmed
    } else if description == "shower rain"@ || description == "rain"@ || description
        == "thunderstorm"@ || description == "snow"@ {
        ColorTag::BrightCyan
    } else {
        ColorTag::Plain
    }
}

/// The text of a report: a headline with place, description and symbol,
/// then one indented line for each of the four readings.
pub open spec fn render_text(report: ReportView) -> Seq<char> {
    "Weather in "@ + report.location_name + ": "@ + report.descriptions[0] + " "@ + emoji_of(
        bucket_of(report.temperature_celsius),
    ) + "\n        > Tempreture: "@ + one_decimal_text(report.temperature_celsius)
        + " \u{b0}C,\n        > Humidity: "@ + one_decimal_text(report.humidity_percent)
        + " %,\n        > Pressure: "@ + one_decimal_text(report.pressure_hpa)
        + " hPa,\n        > Wind Speed: "@ + one_decimal_text(report.wind_speed_mps) + " m/s"@
}

/// The three bit patterns above are the whole numbers they are named after.
pub proof fn lemma_whole_degrees()
    ensures
        (Reading { bits: 0 }).is_whole(0),
        (Reading { bits: TEN_DEGREES }).is_whole(10),
        (Reading { bits: TWENTY_DEGREES }).is_whole(20),
        (Reading { bits: THIRTY_DEGREES }).is_whole(30),
{
    lemma2_to64();
    lemma2_to64_rest();
    let zero = Reading { bits: 0 };
    let ten = Reading { bits: TEN_DEGREES };
    let twenty = Reading { bits: TWENTY_DEGREES };
    let thirty = Reading { bits: THIRTY_DEGREES };
    assert(zero.units() == 0 * unit_scale()) by (nonlinear_arith)
        requires
            zero.units() == 0 * pow2(0),
    ;
    // 10 == 5 * 2^50 * 2^1025 / 2^1074
    assert(ten.exponent_field() == 1026 && ten.fraction_field() == 0x4_0000_0000_0000);
    lemma_pow2_adds(49, 1025);
    assert(ten.units() == 10 * unit_scale()) by (nonlinear_arith)
        requires
            ten.units() == (0x14_0000_0000_0000 as nat) * pow2(1025),
            pow2(1074) == 0x2_0000_0000_0000 * pow2(1025),
            unit_scale() == pow2(1074),
    ;
    // 20 == 5 * 2^50 * 2^1026 / 2^1074
    assert(twenty.exponent_field() == 1027 && twenty.fraction_field() == 0x4_0000_0000_0000);
    lemma_pow2_adds(48, 1026);
    assert(twenty.units() == 20 * unit_scale()) by (nonlinear_arith)
        requires
            twenty.units() == (0x14_0000_0000_0000 as nat) * pow2(1026),
            pow2(1074) == 0x1_0000_0000_0000 * pow2(1026),
            unit_scale() == pow2(1074),
    ;
    // 30 == 15 * 2^49 * 2^1026 / 2^1074
    assert(thirty.exponent_field() == 1027 && thirty.fraction_field() == 0xE_0000_0000_0000);
    assert(thirty.units() == 30 * unit_scale()) by (nonlinear_arith)
        requires
            thirty.units() == (0x1E_0000_0000_0000 as nat) * pow2(1026),
            pow2(1074) == 0x1_0000_0000_0000 * pow2(1026),
            unit_scale() == pow2(1074),
    ;
}

/// Every temperature that is a number lies in the one bucket whose range
/// holds it. The ranges meet at 0, 10, 20 and 30 degrees; each holds its
/// lower bound and not its upper one.
pub proof fn law_bucket_ranges(t: Reading)
    requires
        !t.is_nan_spec(),
    ensures
        bucket_of(t) == TempBucket::Freezing <==> t.below(0),
        bucket_of(t) == TempBucket::Cold <==> t.at_least(0) && t.below(10),
        bucket_of(t) == TempBucket::Mild <==> t.at_least(10) && t.below(20),
        bucket_of(t) == TempBucket::Warm <==> t.at_least(20) && t.below(30),
        bucket_of(t) == TempBucket::Hot <==> t.at_least(30),
        t.is_whole(0) ==> bucket_of(t) == TempBucket::Cold,
        t.is_whole(10) ==> bucket_of(t) == TempBucket::Mild,
        t.is_whole(20) ==> bucket_of(t) == TempBucket::Warm,
        t.is_whole(30) ==> bucket_of(t) == TempBucket::Hot,
{
    lemma_pow2_pos(1074);
    let scale = unit_scale() as int;
    assert(0 * scale < 10 * scale < 20 * scale < 30 * scale) by (nonlinear_arith)
        requires
            scale > 0,
    ;
}

/// No two buckets share a symbol: the symbol shown tells the bucket.
pub proof fn law_symbol_tells_bucket(a: TempBucket, b: TempBucket)
    requires
        emoji_of(a) == emoji_of(b),
    ensures
        a == b,
{
    reveal_strlit("\u{2744}\u{fe0f}");
    reveal_strlit("\u{2601}\u{fe0f}");
    reveal_strlit("\u{26c5}");
    reveal_strlit("\u{1f324}\u{fe0f}");
    reveal_strlit("\u{1f525}");
    assert("\u{2744}\u{fe0f}"@[0] == '\u{2744}');
    assert("\u{2601}\u{fe0f}"@[0] == '\u{2601}');
    assert("\u{26c5}"@[0] == '\u{26c5}');
    assert("\u{1f324}\u{fe0f}"@[0] == '\u{1f324}');
    assert("\u{1f525}"@[0] == '\u{1f525}');
}

/// A temperature that is no number is shown as the hottest bucket.
pub proof fn law_nan_is_hot(t: Reading)
    requires
        t.is_nan_spec(),
    ensures
        bucket_of(t) == TempBucket::Hot,
{
}

/// Each description of the table has the colour of its group, and a
/// description that the table does not list is shown plain.
pub proof fn law_color_table(description: Seq<char>)
    ensures
        description == "clear sky"@ ==> color_of(description) == ColorTag::BrightYellow,
        description == "few clouds"@ || description == "scattered clouds"@ || description
            == "broken clouds"@ ==> color_of(description) == ColorTag::BrightBlue,
        description == "overcast clouds"@ || description == "mist"@ || description == "haze"@
            || description == "smoke"@ || description == "sand"@ || description == "dust"@
            || description == "fog"@ || description == "squalls"@ ==> color_of(description)
            == ColorTag::Dimmed,
        description == "shower rain"@ || description == "rain"@ || description == "thunderstorm"@
            || description == "snow"@ ==> color_of(description) == ColorTag::BrightCyan,
        description != "clear sky"@ && description != "few clouds"@ && description
            != "scattered clouds"@ && description != "broken clouds"@ && description
            != "overcast clouds"@ && description != "mist"@ && description != "haze"@
            && description != "smoke"@ && description != "sand"@ && description != "dust"@
            && description != "fog"@ && description != "squalls"@ && description != "shower rain"@
            && description != "rain"@ && description != "thunderstorm"@ && description != "snow"@
            ==> color_of(description) == ColorTag::Plain,
{
    reveal_strlit("clear sky");
    reveal_strlit("few clouds");
    reveal_strlit("scattered clouds");
    reveal_strlit("broken clouds");
    reveal_strlit("overcast clouds");
    reveal_strlit("mist");
    reveal_strlit("haze");
    reveal_strlit("smoke");
    reveal_strlit("sand");
    reveal_strlit("dust");
    reveal_strlit("fog");
    reveal_strlit("squalls");
    reveal_strlit("shower rain");
    reveal_strlit("rain");
    reveal_strlit("thunderstorm");
    reveal_strlit("snow");
    // No two entries are the same text: they differ in length or within
    // their first two letters.
    assert("clear sky"@.len() == 9 && "clear sky"@[0] == 'c' && "clear sky"@[1] == 'l');
    assert("few clouds"@.len() == 10 && "few clouds"@[0] == 'f' && "few clouds"@[1] == 'e');
    assert("scattered clouds"@.len() == 16 && "scattered clouds"@[0] == 's' && "scattered clouds"@[1] == 'c');
    assert("broken clouds"@.len() == 13 && "broken clouds"@[0] == 'b' && "broken clouds"@[1] == 'r');
    assert("overcast clouds"@.len() == 15 && "overcast clouds"@[0] == 'o' && "overcast clouds"@[1] == 'v');
    assert("mist"@.len() == 4 && "mist"@[0] == 'm' && "mist"@[1] == 'i');
    assert("haze"@.len() == 4 && "haze"@[0] == 'h' && "haze"@[1] == 'a');
    assert("smoke"@.len() == 5 && "smoke"@[0] == 's' && "smoke"@[1] == 'm');
    assert("sand"@.len() == 4 && "sand"@[0] == 's' && "sand"@[1] == 'a');
    assert("dust"@.len() == 4 && "dust"@[0] == 'd' && "dust"@[1] == 'u');
    assert("fog"@.len() == 3 && "fog"@[0] == 'f' && "fog"@[1] == 'o');
    assert("squalls"@.len() == 7 && "squalls"@[0] == 's' && "squalls"@[1] == 'q');
    assert("shower rain"@.len() == 11 && "shower rain"@[0] == 's' && "shower rain"@[1] == 'h');
    assert("rain"@.len() == 4 && "rain"@[0] == 'r' && "rain"@[1] == 'a');
    assert("thunderstorm"@.len() == 12 && "thunderstorm"@[0] == 't' && "thunderstorm"@[1] == 'h');
    assert("snow"@.len() == 4 && "snow"@[0] == 's' && "snow"@[1] == 'n');
}

impl TempBucket {
    /// The bucket of a temperature.
    pub fn of(temperature: Reading) -> (bucket: TempBucket)
        ensures
            bucket == bucket_of(temperature),
    {
        let zero: Reading = Reading::from_bits(0);
        let ten: Reading = Reading::from_bits(TEN_DEGREES);
        let twenty: Reading = Reading::from_bits(TWENTY_DEGREES);
        let thirty: Reading = Reading::from_bits(THIRTY_DEGREES);
        proof {
            lemma_whole_degrees();
            lemma_compare_whole(temperature, zero, 0);
            lemma_compare_whole(temperature, ten, 10);
            lemma_compare_whole(temperature, twenty, 20);
            lemma_compare_whole(temperature, thirty, 30);
        }
        if temperature.lt(zero) {
            TempBucket::Freezing
        } else if temperature.ge(zero) && temperature.lt(ten) {
            TempBucket::Cold
        } else if temperature.ge(ten) && temperature.lt(twenty) {
            TempBucket::Mild
        } else if temperature.ge(twenty) && temperature.lt(thirty) {
            TempBucket::Warm
        } else {
            TempBucket::Hot
        }
    }

    /// The symbol shown for the bucket.
    pub fn emoji(self) -> (emoji: &'static str)
        ensures
            emoji@ == emoji_of(self),
    {
        match self {
            TempBucket::Freezing => "\u{2744}\u{fe0f}",
            TempBucket::Cold => "\u{2601}\u{fe0f}",
            TempBucket::Mild => "\u{26c5}",
            TempBucket::Warm => "\u{1f324}\u{fe0f}",
            TempBucket::Hot => "\u{1f525}",
        }
    }
}

/// The symbol shown beside a temperature.
pub fn get_temp_emoji(temperature: Reading) -> (emoji: &'static str)
    ensures
        emoji@ == emoji_of(bucket_of(temperature)),
{
    TempBucket::of(temperature).emoji()
}

/// The colour in which a report with this description is shown.
pub fn color_for(description: &str) -> (tag: ColorTag)
    ensures
        tag == color_of(description@),
{
    if same_text(description, "clear sky") {
        ColorTag::BrightYellow
    } else if same_text(description, "few clouds") || same_text(description, "scattered clouds")
        || same_text(description, "broken clouds") {
        ColorTag::BrightBlue
    } else if same_text(description, "overcast clouds") || same_text(description, "mist")
        || same_text(description, "haze") || same_text(description, "smoke") || same_text(
        description,
        "sand",
    ) || same_text(description, "dust") || same_text(description, "fog") || same_text(
        description,
        "squalls",
    ) {
        ColorTag::Dimmed
    } else if same_text(description, "shower rain") || same_text(description, "rain") || same_text(
        description,
        "thunderstorm",
    ) || same_text(description, "snow") {
        ColorTag::BrightCyan
    } else {
        ColorTag::Plain
    }
}

/// The block that is shown for a report.
pub fn render(report: &WeatherReport) -> (block: DisplayBlock)
    ensures
        report@.descriptions.len() >= 1,
        block.text@ == render_text(report@),
        block.color_tag == color_of(report@.descriptions[0]),
{
    let description: &str = report.description();
    let temperature: Reading = report.temperature_celsius();
    let mut text: String = String::from_str("Weather in ");
    text.append(report.location_name());
    text.append(": ");
    text.append(description);
    text.append(" ");
    text.append(get_temp_emoji(temperature));
    text.append("\n        > Tempreture: ");
    text.append(one_decimal(temperature).as_str());
    text.append(" \u{b0}C,\n        > Humidity: ");
    text.append(one_decimal(report.humidity_percent()).as_str());
    text.append(" %,\n        > Pressure: ");
    text.append(one_decimal(report.pressure_hpa()).as_str());
    text.append(" hPa,\n        > Wind Speed: ");
    text.append(one_decimal(report.wind_speed_mps()).as_str());
    text.append(" m/s");
    DisplayBlock { text, color_tag: color_for(description) }
}

} // verus!
