//! The LDraw color table.
//!
//! A color code is the second token of a geometry or reference line.  Two
//! codes are sentinels: `16` means "inherit the color of the enclosing
//! reference" and `24` means "edge (complement) color".  Every other known
//! code maps to a fixed RGBA value; unknown codes resolve to the inherited
//! color rather than failing.  Channels are held in millionths, so that
//! `1000000` is full intensity and a fourth channel under `1000000` marks a
//! semi-transparent color.

use vstd::prelude::*;

verus! {

use crate::digits::lemma_digits_val_bound;
use crate::digits::lemma_take_succ;
use crate::digits::lemma_ten_pow_le;
use crate::digits::spec_all_digits;
use crate::digits::spec_digits_val;
use crate::digits::spec_ten_pow;

/// A resolved LDraw color.
#[derive(Clone, Copy, PartialEq, Eq, Structural, Debug)]
pub enum LdrawColor {
    /// Inherit the color given by the enclosing sub-file reference.
    Main,
    /// The edge (complement) color of the enclosing color.
    Complement,
    /// An opaque or semi-transparent color; channels are in millionths.
    Rgba(u32, u32, u32, u32),
}

/// The fixed table behind `resolve_color`, keyed by the numeric value of a
/// canonical code.  Codes `16` and `24` are the two sentinels; codes not in
/// the table mean "inherit".
pub open spec fn spec_color_table(n: u32) -> LdrawColor {
    match n {
        16u32 => LdrawColor::Main,
        24u32 => LdrawColor::Complement,
        0u32 => LdrawColor::Rgba(105882, 164706, 203922, 1000000),
        1u32 => LdrawColor::Rgba(117647, 352941, 658824, 1000000),
        2u32 => LdrawColor::Rgba(0, 521569, 168627, 1000000),
        3u32 => LdrawColor::Rgba(23529, 615686, 623529, 1000000),
        4u32 => LdrawColor::Rgba(705882, 0, 0, 1000000),
        5u32 => LdrawColor::Rgba(827451, 207843, 615686, 1000000),
        6u32 => LdrawColor::Rgba(329412, 200000, 141176, 1000000),
        7u32 => LdrawColor::Rgba(541176, 572549, 552941, 1000000),
        8u32 => LdrawColor::Rgba(329412, 349020, 333333, 1000000),
        9u32 => LdrawColor::Rgba(592157, 796078, 850980, 1000000),
        10u32 => LdrawColor::Rgba(345098, 670588, 254902, 1000000),
        11u32 => LdrawColor::Rgba(0, 666667, 643137, 1000000),
        12u32 => LdrawColor::Rgba(941176, 427451, 380392, 1000000),
        13u32 => LdrawColor::Rgba(964706, 662745, 733333, 1000000),
        14u32 => LdrawColor::Rgba(980392, 784314, 39216, 1000000),
        15u32 => LdrawColor::Rgba(956863, 956863, 956863, 1000000),
        17u32 => LdrawColor::Rgba(678431, 850980, 658824, 1000000),
        18u32 => LdrawColor::Rgba(1000000, 839216, 498039, 1000000),
        19u32 => LdrawColor::Rgba(690196, 627451, 435294, 1000000),
        20u32 => LdrawColor::Rgba(686275, 745098, 839216, 1000000),
        22u32 => LdrawColor::Rgba(403922, 121569, 505882, 1000000),
        23u32 => LdrawColor::Rgba(54902, 243137, 603922, 1000000),
        25u32 => LdrawColor::Rgba(839216, 474510, 137255, 1000000),
        26u32 => LdrawColor::Rgba(564706, 121569, 462745, 1000000),
        27u32 => LdrawColor::Rgba(647059, 792157, 94118, 1000000),
        28u32 => LdrawColor::Rgba(537255, 490196, 384314, 1000000),
        29u32 => LdrawColor::Rgba(1000000, 619608, 803922, 1000000),
        30u32 => LdrawColor::Rgba(627451, 431373, 725490, 1000000),
        31u32 => LdrawColor::Rgba(803922, 643137, 870588, 1000000),
        68u32 => LdrawColor::Rgba(992157, 764706, 513726, 1000000),
        69u32 => LdrawColor::Rgba(541176, 70588, 658824, 1000000),
        70u32 => LdrawColor::Rgba(372549, 192157, 35294, 1000000),
        71u32 => LdrawColor::Rgba(588235, 588235, 588235, 1000000),
        72u32 => LdrawColor::Rgba(392157, 392157, 392157, 1000000),
        73u32 => LdrawColor::Rgba(450980, 588235, 784314, 1000000),
        74u32 => LdrawColor::Rgba(498039, 768627, 458824, 1000000),
        77u32 => LdrawColor::Rgba(996078, 800000, 811765, 1000000),
        78u32 => LdrawColor::Rgba(1000000, 788235, 584314, 1000000),
        84u32 => LdrawColor::Rgba(666667, 490196, 333333, 1000000),
        85u32 => LdrawColor::Rgba(266667, 101961, 568627, 1000000),
        86u32 => LdrawColor::Rgba(678431, 380392, 250980, 1000000),
        89u32 => LdrawColor::Rgba(109804, 345098, 654902, 1000000),
        92u32 => LdrawColor::Rgba(733333, 501961, 352941, 1000000),
        100u32 => LdrawColor::Rgba(976471, 717647, 647059, 1000000),
        110u32 => LdrawColor::Rgba(149020, 274510, 603922, 1000000),
        112u32 => LdrawColor::Rgba(282353, 380392, 674510, 1000000),
        115u32 => LdrawColor::Rgba(717647, 831373, 145098, 1000000),
        118u32 => LdrawColor::Rgba(611765, 839216, 800000, 1000000),
        120u32 => LdrawColor::Rgba(870588, 917647, 572549, 1000000),
        125u32 => LdrawColor::Rgba(976471, 654902, 466667, 1000000),
        128u32 => LdrawColor::Rgba(678431, 380392, 250980, 1000000),
        151u32 => LdrawColor::Rgba(784314, 784314, 784314, 1000000),
        191u32 => LdrawColor::Rgba(988235, 674510, 0, 1000000),
        212u32 => LdrawColor::Rgba(615686, 764706, 968627, 1000000),
        216u32 => LdrawColor::Rgba(529412, 168627, 90196, 1000000),
        218u32 => LdrawColor::Rgba(556863, 333333, 592157, 1000000),
        219u32 => LdrawColor::Rgba(337255, 305882, 615686, 1000000),
        226u32 => LdrawColor::Rgba(1000000, 925490, 423529, 1000000),
        232u32 => LdrawColor::Rgba(466667, 788235, 847059, 1000000),
        272u32 => LdrawColor::Rgba(98039, 196078, 352941, 1000000),
        288u32 => LdrawColor::Rgba(0, 270588, 101961, 1000000),
        295u32 => LdrawColor::Rgba(1000000, 580392, 760784, 1000000),
        308u32 => LdrawColor::Rgba(207843, 129412, 0, 1000000),
        313u32 => LdrawColor::Rgba(670588, 850980, 1000000, 1000000),
        320u32 => LdrawColor::Rgba(447059, 0, 70588, 1000000),
        321u32 => LdrawColor::Rgba(274510, 607843, 764706, 1000000),
        322u32 => LdrawColor::Rgba(407843, 764706, 886275, 1000000),
        323u32 => LdrawColor::Rgba(827451, 949020, 917647, 1000000),
        326u32 => LdrawColor::Rgba(886275, 976471, 603922, 1000000),
        330u32 => LdrawColor::Rgba(466667, 466667, 305882, 1000000),
        335u32 => LdrawColor::Rgba(533333, 376471, 368627, 1000000),
        351u32 => LdrawColor::Rgba(968627, 521569, 694118, 1000000),
        353u32 => LdrawColor::Rgba(1000000, 427451, 466667, 1000000),
        366u32 => LdrawColor::Rgba(847059, 427451, 172549, 1000000),
        373u32 => LdrawColor::Rgba(458824, 396078, 490196, 1000000),
        378u32 => LdrawColor::Rgba(439216, 556863, 486275, 1000000),
        379u32 => LdrawColor::Rgba(439216, 505882, 603922, 1000000),
        450u32 => LdrawColor::Rgba(823529, 466667, 266667, 1000000),
        462u32 => LdrawColor::Rgba(960784, 525490, 141176, 1000000),
        484u32 => LdrawColor::Rgba(568627, 313726, 109804, 1000000),
        503u32 => LdrawColor::Rgba(737255, 705882, 647059, 1000000),
        507u32 => LdrawColor::Rgba(980392, 611765, 109804, 1000000),
        508u32 => LdrawColor::Rgba(1000000, 501961, 78431, 1000000),
        509u32 => LdrawColor::Rgba(811765, 541176, 278431, 1000000),
        510u32 => LdrawColor::Rgba(470588, 988235, 470588, 1000000),
        33u32 => LdrawColor::Rgba(0, 125490, 627451, 501961),
        34u32 => LdrawColor::Rgba(137255, 470588, 254902, 501961),
        35u32 => LdrawColor::Rgba(337255, 901961, 274510, 501961),
        36u32 => LdrawColor::Rgba(788235, 101961, 35294, 501961),
        37u32 => LdrawColor::Rgba(874510, 400000, 584314, 501961),
        38u32 => LdrawColor::Rgba(1000000, 501961, 50980, 501961),
        39u32 => LdrawColor::Rgba(756863, 874510, 941176, 501961),
        40u32 => LdrawColor::Rgba(388235, 372549, 321569, 501961),
        41u32 => LdrawColor::Rgba(333333, 603922, 717647, 501961),
        42u32 => LdrawColor::Rgba(752941, 1000000, 0, 501961),
        43u32 => LdrawColor::Rgba(682353, 913725, 937255, 501961),
        44u32 => LdrawColor::Rgba(588235, 439216, 623529, 501961),
        45u32 => LdrawColor::Rgba(988235, 592157, 674510, 501961),
        46u32 => LdrawColor::Rgba(960784, 803922, 184314, 501961),
        47u32 => LdrawColor::Rgba(988235, 988235, 988235, 501961),
        52u32 => LdrawColor::Rgba(647059, 647059, 796078, 501961),
        54u32 => LdrawColor::Rgba(854902, 690196, 0, 501961),
        57u32 => LdrawColor::Rgba(941176, 560784, 109804, 501961),
        231u32 => LdrawColor::Rgba(988235, 717647, 427451, 501961),
        234u32 => LdrawColor::Rgba(984314, 909804, 564706, 501961),
        284u32 => LdrawColor::Rgba(760784, 505882, 647059, 501961),
        285u32 => LdrawColor::Rgba(490196, 760784, 568627, 501961),
        293u32 => LdrawColor::Rgba(419608, 670588, 894118, 501961),
        334u32 => LdrawColor::Rgba(874510, 756863, 462745, 1000000),
        383u32 => LdrawColor::Rgba(807843, 807843, 807843, 1000000),
        60u32 => LdrawColor::Rgba(392157, 352941, 298039, 1000000),
        64u32 => LdrawColor::Rgba(105882, 164706, 203922, 1000000),
        61u32 => LdrawColor::Rgba(423529, 588235, 749020, 1000000),
        62u32 => LdrawColor::Rgba(235294, 701961, 443137, 1000000),
        63u32 => LdrawColor::Rgba(666667, 301961, 556863, 1000000),
        183u32 => LdrawColor::Rgba(964706, 949020, 874510, 1000000),
        150u32 => LdrawColor::Rgba(596078, 607843, 600000, 1000000),
        135u32 => LdrawColor::Rgba(627451, 627451, 627451, 1000000),
        179u32 => LdrawColor::Rgba(537255, 529412, 533333, 1000000),
        148u32 => LdrawColor::Rgba(282353, 301961, 282353, 1000000),
        137u32 => LdrawColor::Rgba(356863, 458824, 564706, 1000000),
        142u32 => LdrawColor::Rgba(870588, 674510, 400000, 1000000),
        297u32 => LdrawColor::Rgba(666667, 498039, 180392, 1000000),
        178u32 => LdrawColor::Rgba(513726, 447059, 309804, 1000000),
        134u32 => LdrawColor::Rgba(462745, 301961, 231373, 1000000),
        189u32 => LdrawColor::Rgba(674510, 509804, 278431, 1000000),
        80u32 => LdrawColor::Rgba(462745, 462745, 462745, 1000000),
        81u32 => LdrawColor::Rgba(415686, 474510, 266667, 1000000),
        82u32 => LdrawColor::Rgba(858824, 674510, 203922, 1000000),
        83u32 => LdrawColor::Rgba(39216, 74510, 152941, 1000000),
        87u32 => LdrawColor::Rgba(427451, 431373, 360784, 1000000),
        300u32 => LdrawColor::Rgba(760784, 498039, 325490, 1000000),
        184u32 => LdrawColor::Rgba(839216, 0, 149020, 1000000),
        186u32 => LdrawColor::Rgba(0, 556863, 235294, 1000000),
        79u32 => LdrawColor::Rgba(933333, 933333, 933333, 941176),
        21u32 => LdrawColor::Rgba(878431, 1000000, 690196, 941176),
        294u32 => LdrawColor::Rgba(741176, 776471, 678431, 941176),
        329u32 => LdrawColor::Rgba(960784, 952941, 843137, 941176),
        114u32 => LdrawColor::Rgba(874510, 400000, 584314, 501961),
        117u32 => LdrawColor::Rgba(933333, 933333, 933333, 501961),
        129u32 => LdrawColor::Rgba(392157, 0, 380392, 501961),
        302u32 => LdrawColor::Rgba(682353, 913725, 937255, 501961),
        339u32 => LdrawColor::Rgba(752941, 1000000, 0, 501961),
        132u32 => LdrawColor::Rgba(0, 0, 0, 1000000),
        133u32 => LdrawColor::Rgba(0, 0, 0, 1000000),
        75u32 => LdrawColor::Rgba(0, 0, 0, 1000000),
        76u32 => LdrawColor::Rgba(388235, 372549, 380392, 1000000),
        65u32 => LdrawColor::Rgba(980392, 784314, 39216, 1000000),
        66u32 => LdrawColor::Rgba(960784, 803922, 184314, 501961),
        67u32 => LdrawColor::Rgba(988235, 988235, 988235, 501961),
        256u32 => LdrawColor::Rgba(105882, 164706, 203922, 1000000),
        273u32 => LdrawColor::Rgba(117647, 352941, 658824, 1000000),
        324u32 => LdrawColor::Rgba(705882, 0, 0, 1000000),
        350u32 => LdrawColor::Rgba(839216, 474510, 137255, 1000000),
        375u32 => LdrawColor::Rgba(541176, 572549, 552941, 1000000),
        406u32 => LdrawColor::Rgba(98039, 196078, 352941, 1000000),
        449u32 => LdrawColor::Rgba(403922, 121569, 505882, 1000000),
        490u32 => LdrawColor::Rgba(647059, 792157, 94118, 1000000),
        496u32 => LdrawColor::Rgba(588235, 588235, 588235, 1000000),
        504u32 => LdrawColor::Rgba(537255, 529412, 533333, 1000000),
        511u32 => LdrawColor::Rgba(956863, 956863, 956863, 1000000),
        10002u32 => LdrawColor::Rgba(345098, 670588, 254902, 1000000),
        10026u32 => LdrawColor::Rgba(564706, 121569, 462745, 1000000),
        10030u32 => LdrawColor::Rgba(627451, 431373, 725490, 1000000),
        10031u32 => LdrawColor::Rgba(803922, 643137, 870588, 1000000),
        10070u32 => LdrawColor::Rgba(372549, 192157, 35294, 1000000),
        10226u32 => LdrawColor::Rgba(1000000, 925490, 423529, 1000000),
        10308u32 => LdrawColor::Rgba(207843, 129412, 0, 1000000),
        10320u32 => LdrawColor::Rgba(447059, 0, 70588, 1000000),
        10321u32 => LdrawColor::Rgba(274510, 607843, 764706, 1000000),
        10322u32 => LdrawColor::Rgba(407843, 764706, 886275, 1000000),
        10323u32 => LdrawColor::Rgba(827451, 949020, 917647, 1000000),
        10484u32 => LdrawColor::Rgba(568627, 313726, 109804, 1000000),
        32u32 => LdrawColor::Rgba(0, 0, 0, 823529),
        493u32 => LdrawColor::Rgba(396078, 403922, 380392, 1000000),
        494u32 => LdrawColor::Rgba(815686, 815686, 815686, 1000000),
        495u32 => LdrawColor::Rgba(682353, 478431, 349020, 1000000),
        10047u32 => LdrawColor::Rgba(1000000, 1000000, 1000000, 62745),
        _ => LdrawColor::Main,
    }
}

/// A canonical color code: one to five digits with no leading zero.  Only
/// such strings are looked up; anything else resolves to `Main`.
pub open spec fn spec_canonical_code(s: Seq<u8>) -> Option<int> {
    if 1 <= s.len() <= 5 && spec_all_digits(s) && (s.len() == 1 || s[0] != 48) {
        Some(spec_digits_val(s))
    } else {
        None
    }
}

/// What a color token resolves to.
pub open spec fn spec_resolve_color(s: Seq<u8>) -> LdrawColor {
    match spec_canonical_code(s) {
        Some(n) => spec_color_table(n as u32),
        None => LdrawColor::Main,
    }
}

fn color_table(n: u32) -> (c: LdrawColor)
    ensures
        c == spec_color_table(n),
{
    match n {
        16u32 => LdrawColor::Main,
        24u32 => LdrawColor::Complement,
        0u32 => LdrawColor::Rgba(105882, 164706, 203922, 1000000),
        1u32 => LdrawColor::Rgba(117647, 352941, 658824, 1000000),
        2u32 => LdrawColor::Rgba(0, 521569, 168627, 1000000),
        3u32 => LdrawColor::Rgba(23529, 615686, 623529, 1000000),
        4u32 => LdrawColor::Rgba(705882, 0, 0, 1000000),
        5u32 => LdrawColor::Rgba(827451, 207843, 615686, 1000000),
        6u32 => LdrawColor::Rgba(329412, 200000, 141176, 1000000),
        7u32 => LdrawColor::Rgba(541176, 572549, 552941, 1000000),
        8u32 => LdrawColor::Rgba(329412, 349020, 333333, 1000000),
        9u32 => LdrawColor::Rgba(592157, 796078, 850980, 1000000),
        10u32 => LdrawColor::Rgba(345098, 670588, 254902, 1000000),
        11u32 => LdrawColor::Rgba(0, 666667, 643137, 1000000),
        12u32 => LdrawColor::Rgba(941176, 427451, 380392, 1000000),
        13u32 => LdrawColor::Rgba(964706, 662745, 733333, 1000000),
        14u32 => LdrawColor::Rgba(980392, 784314, 39216, 1000000),
        15u32 => LdrawColor::Rgba(956863, 956863, 956863, 1000000),
        17u32 => LdrawColor::Rgba(678431, 850980, 658824, 1000000),
        18u32 => LdrawColor::Rgba(1000000, 839216, 498039, 1000000),
        19u32 => LdrawColor::Rgba(690196, 627451, 435294, 1000000),
        20u32 => LdrawColor::Rgba(686275, 745098, 839216, 1000000),
        22u32 => LdrawColor::Rgba(403922, 121569, 505882, 1000000),
        23u32 => LdrawColor::Rgba(54902, 243137, 603922, 1000000),
        25u32 => LdrawColor::Rgba(839216, 474510, 137255, 1000000),
        26u32 => LdrawColor::Rgba(564706, 121569, 462745, 1000000),
        27u32 => LdrawColor::Rgba(647059, 792157, 94118, 1000000),
        28u32 => LdrawColor::Rgba(537255, 490196, 384314, 1000000),
        29u32 => LdrawColor::Rgba(1000000, 619608, 803922, 1000000),
        30u32 => LdrawColor::Rgba(627451, 431373, 725490, 1000000),
        31u32 => LdrawColor::Rgba(803922, 643137, 870588, 1000000),
        68u32 => LdrawColor::Rgba(992157, 764706, 513726, 1000000),
        69u32 => LdrawColor::Rgba(541176, 70588, 658824, 1000000),
        70u32 => LdrawColor::Rgba(372549, 192157, 35294, 1000000),
        71u32 => LdrawColor::Rgba(588235, 588235, 588235, 1000000),
        72u32 => LdrawColor::Rgba(392157, 392157, 392157, 1000000),
        73u32 => LdrawColor::Rgba(450980, 588235, 784314, 1000000),
        74u32 => LdrawColor::Rgba(498039, 768627, 458824, 1000000),
        77u32 => LdrawColor::Rgba(996078, 800000, 811765, 1000000),
        78u32 => LdrawColor::Rgba(1000000, 788235, 584314, 1000000),
        84u32 => LdrawColor::Rgba(666667, 490196, 333333, 1000000),
        85u32 => LdrawColor::Rgba(266667, 101961, 568627, 1000000),
        86u32 => LdrawColor::Rgba(678431, 380392, 250980, 1000000),
        89u32 => LdrawColor::Rgba(109804, 345098, 654902, 1000000),
        92u32 => LdrawColor::Rgba(733333, 501961, 352941, 1000000),
        100u32 => LdrawColor::Rgba(976471, 717647, 647059, 1000000),
        110u32 => LdrawColor::Rgba(149020, 274510, 603922, 1000000),
        112u32 => LdrawColor::Rgba(282353, 380392, 674510, 1000000),
        115u32 => LdrawColor::Rgba(717647, 831373, 145098, 1000000),
        118u32 => LdrawColor::Rgba(611765, 839216, 800000, 1000000),
        120u32 => LdrawColor::Rgba(870588, 917647, 572549, 1000000),
        125u32 => LdrawColor::Rgba(976471, 654902, 466667, 1000000),
        128u32 => LdrawColor::Rgba(678431, 380392, 250980, 1000000),
        151u32 => LdrawColor::Rgba(784314, 784314, 784314, 1000000),
        191u32 => LdrawColor::Rgba(988235, 674510, 0, 1000000),
        212u32 => LdrawColor::Rgba(615686, 764706, 968627, 1000000),
        216u32 => LdrawColor::Rgba(529412, 168627, 90196, 1000000),
        218u32 => LdrawColor::Rgba(556863, 333333, 592157, 1000000),
        219u32 => LdrawColor::Rgba(337255, 305882, 615686, 1000000),
        226u32 => LdrawColor::Rgba(1000000, 925490, 423529, 1000000),
        232u32 => LdrawColor::Rgba(466667, 788235, 847059, 1000000),
        272u32 => LdrawColor::Rgba(98039, 196078, 352941, 1000000),
        288u32 => LdrawColor::Rgba(0, 270588, 101961, 1000000),
        295u32 => LdrawColor::Rgba(1000000, 580392, 760784, 1000000),
        308u32 => LdrawColor::Rgba(207843, 129412, 0, 1000000),
        313u32 => LdrawColor::Rgba(670588, 850980, 1000000, 1000000),
        320u32 => LdrawColor::Rgba(447059, 0, 70588, 1000000),
        321u32 => LdrawColor::Rgba(274510, 607843, 764706, 1000000),
        322u32 => LdrawColor::Rgba(407843, 764706, 886275, 1000000),
        323u32 => LdrawColor::Rgba(827451, 949020, 917647, 1000000),
        326u32 => LdrawColor::Rgba(886275, 976471, 603922, 1000000),
        330u32 => LdrawColor::Rgba(466667, 466667, 305882, 1000000),
        335u32 => LdrawColor::Rgba(533333, 376471, 368627, 1000000),
        351u32 => LdrawColor::Rgba(968627, 521569, 694118, 1000000),
        353u32 => LdrawColor::Rgba(1000000, 427451, 466667, 1000000),
        366u32 => LdrawColor::Rgba(847059, 427451, 172549, 1000000),
        373u32 => LdrawColor::Rgba(458824, 396078, 490196, 1000000),
        378u32 => LdrawColor::Rgba(439216, 556863, 486275, 1000000),
        379u32 => LdrawColor::Rgba(439216, 505882, 603922, 1000000),
        450u32 => LdrawColor::Rgba(823529, 466667, 266667, 1000000),
        462u32 => LdrawColor::Rgba(960784, 525490, 141176, 1000000),
        484u32 => LdrawColor::Rgba(568627, 313726, 109804, 1000000),
        503u32 => LdrawColor::Rgba(737255, 705882, 647059, 1000000),
        507u32 => LdrawColor::Rgba(980392, 611765, 109804, 1000000),
        508u32 => LdrawColor::Rgba(1000000, 501961, 78431, 1000000),
        509u32 => LdrawColor::Rgba(811765, 541176, 278431, 1000000),
        510u32 => LdrawColor::Rgba(470588, 988235, 470588, 1000000),
        33u32 => LdrawColor::Rgba(0, 125490, 627451, 501961),
        34u32 => LdrawColor::Rgba(137255, 470588, 254902, 501961),
        35u32 => LdrawColor::Rgba(337255, 901961, 274510, 501961),
        36u32 => LdrawColor::Rgba(788235, 101961, 35294, 501961),
        37u32 => LdrawColor::Rgba(874510, 400000, 584314, 501961),
        38u32 => LdrawColor::Rgba(1000000, 501961, 50980, 501961),
        39u32 => LdrawColor::Rgba(756863, 874510, 941176, 501961),
        40u32 => LdrawColor::Rgba(388235, 372549, 321569, 501961),
        41u32 => LdrawColor::Rgba(333333, 603922, 717647, 501961),
        42u32 => LdrawColor::Rgba(752941, 1000000, 0, 501961),
        43u32 => LdrawColor::Rgba(682353, 913725, 937255, 501961),
        44u32 => LdrawColor::Rgba(588235, 439216, 623529, 501961),
        45u32 => LdrawColor::Rgba(988235, 592157, 674510, 501961),
        46u32 => LdrawColor::Rgba(960784, 803922, 184314, 501961),
        47u32 => LdrawColor::Rgba(988235, 988235, 988235, 501961),
        52u32 => LdrawColor::Rgba(647059, 647059, 796078, 501961),
        54u32 => LdrawColor::Rgba(854902, 690196, 0, 501961),
        57u32 => LdrawColor::Rgba(941176, 560784, 109804, 501961),
        231u32 => LdrawColor::Rgba(988235, 717647, 427451, 501961),
        234u32 => LdrawColor::Rgba(984314, 909804, 564706, 501961),
        284u32 => LdrawColor::Rgba(760784, 505882, 647059, 501961),
        285u32 => LdrawColor::Rgba(490196, 760784, 568627, 501961),
        293u32 => LdrawColor::Rgba(419608, 670588, 894118, 501961),
        334u32 => LdrawColor::Rgba(874510, 756863, 462745, 1000000),
        383u32 => LdrawColor::Rgba(807843, 807843, 807843, 1000000),
        60u32 => LdrawColor::Rgba(392157, 352941, 298039, 1000000),
        64u32 => LdrawColor::Rgba(105882, 164706, 203922, 1000000),
        61u32 => LdrawColor::Rgba(423529, 588235, 749020, 1000000),
        62u32 => LdrawColor::Rgba(235294, 701961, 443137, 1000000),
        63u32 => LdrawColor::Rgba(666667, 301961, 556863, 1000000),
        183u32 => LdrawColor::Rgba(964706, 949020, 874510, 1000000),
        150u32 => LdrawColor::Rgba(596078, 607843, 600000, 1000000),
        135u32 => LdrawColor::Rgba(627451, 627451, 627451, 1000000),
        179u32 => LdrawColor::Rgba(537255, 529412, 533333, 1000000),
        148u32 => LdrawColor::Rgba(282353, 301961, 282353, 1000000),
        137u32 => LdrawColor::Rgba(356863, 458824, 564706, 1000000),
        142u32 => LdrawColor::Rgba(870588, 674510, 400000, 1000000),
        297u32 => LdrawColor::Rgba(666667, 498039, 180392, 1000000),
        178u32 => LdrawColor::Rgba(513726, 447059, 309804, 1000000),
        134u32 => LdrawColor::Rgba(462745, 301961, 231373, 1000000),
        189u32 => LdrawColor::Rgba(674510, 509804, 278431, 1000000),
        80u32 => LdrawColor::Rgba(462745, 462745, 462745, 1000000),
        81u32 => LdrawColor::Rgba(415686, 474510, 266667, 1000000),
        82u32 => LdrawColor::Rgba(858824, 674510, 203922, 1000000),
        83u32 => LdrawColor::Rgba(39216, 74510, 152941, 1000000),
        87u32 => LdrawColor::Rgba(427451, 431373, 360784, 1000000),
        300u32 => LdrawColor::Rgba(760784, 498039, 325490, 1000000),
        184u32 => LdrawColor::Rgba(839216, 0, 149020, 1000000),
        186u32 => LdrawColor::Rgba(0, 556863, 235294, 1000000),
        79u32 => LdrawColor::Rgba(933333, 933333, 933333, 941176),
        21u32 => LdrawColor::Rgba(878431, 1000000, 690196, 941176),
        294u32 => LdrawColor::Rgba(741176, 776471, 678431, 941176),
        329u32 => LdrawColor::Rgba(960784, 952941, 843137, 941176),
        114u32 => LdrawColor::Rgba(874510, 400000, 584314, 501961),
        117u32 => LdrawColor::Rgba(933333, 933333, 933333, 501961),
        129u32 => LdrawColor::Rgba(392157, 0, 380392, 501961),
        302u32 => LdrawColor::Rgba(682353, 913725, 937255, 501961),
        339u32 => LdrawColor::Rgba(752941, 1000000, 0, 501961),
        132u32 => LdrawColor::Rgba(0, 0, 0, 1000000),
        133u32 => LdrawColor::Rgba(0, 0, 0, 1000000),
        75u32 => LdrawColor::Rgba(0, 0, 0, 1000000),
        76u32 => LdrawColor::Rgba(388235, 372549, 380392, 1000000),
        65u32 => LdrawColor::Rgba(980392, 784314, 39216, 1000000),
        66u32 => LdrawColor::Rgba(960784, 803922, 184314, 501961),
        67u32 => LdrawColor::Rgba(988235, 988235, 988235, 501961),
        256u32 => LdrawColor::Rgba(105882, 164706, 203922, 1000000),
        273u32 => LdrawColor::Rgba(117647, 352941, 658824, 1000000),
        324u32 => LdrawColor::Rgba(705882, 0, 0, 1000000),
        350u32 => LdrawColor::Rgba(839216, 474510, 137255, 1000000),
        375u32 => LdrawColor::Rgba(541176, 572549, 552941, 1000000),
        406u32 => LdrawColor::Rgba(98039, 196078, 352941, 1000000),
        449u32 => LdrawColor::Rgba(403922, 121569, 505882, 1000000),
        490u32 => LdrawColor::Rgba(647059, 792157, 94118, 1000000),
        496u32 => LdrawColor::Rgba(588235, 588235, 588235, 1000000),
        504u32 => LdrawColor::Rgba(537255, 529412, 533333, 1000000),
        511u32 => LdrawColor::Rgba(956863, 956863, 956863, 1000000),
        10002u32 => LdrawColor::Rgba(345098, 670588, 254902, 1000000),
        10026u32 => LdrawColor::Rgba(564706, 121569, 462745, 1000000),
        10030u32 => LdrawColor::Rgba(627451, 431373, 725490, 1000000),
        10031u32 => LdrawColor::Rgba(803922, 643137, 870588, 1000000),
        10070u32 => LdrawColor::Rgba(372549, 192157, 35294, 1000000),
        10226u32 => LdrawColor::Rgba(1000000, 925490, 423529, 1000000),
        10308u32 => LdrawColor::Rgba(207843, 129412, 0, 1000000),
        10320u32 => LdrawColor::Rgba(447059, 0, 70588, 1000000),
        10321u32 => LdrawColor::Rgba(274510, 607843, 764706, 1000000),
        10322u32 => LdrawColor::Rgba(407843, 764706, 886275, 1000000),
        10323u32 => LdrawColor::Rgba(827451, 949020, 917647, 1000000),
        10484u32 => LdrawColor::Rgba(568627, 313726, 109804, 1000000),
        32u32 => LdrawColor::Rgba(0, 0, 0, 823529),
        493u32 => LdrawColor::Rgba(396078, 403922, 380392, 1000000),
        494u32 => LdrawColor::Rgba(815686, 815686, 815686, 1000000),
        495u32 => LdrawColor::Rgba(682353, 478431, 349020, 1000000),
        10047u32 => LdrawColor::Rgba(1000000, 1000000, 1000000, 62745),
        _ => LdrawColor::Main,
    }
}

/// Maps a color-code token to its color.  Total: unknown or non-canonical
/// codes inherit the enclosing color rather than failing.
pub fn resolve_color(code: &[u8]) -> (c: LdrawColor)
    ensures
        c == spec_resolve_color(code@),
{
    let n = code.len();
    if n < 1 || n > 5 {
        return LdrawColor::Main;
    }
    if n > 1 && code[0] == 48 {
        return LdrawColor::Main;
    }
    let mut val: u32 = 0;
    let mut i: usize = 0;
    while i < n
        invariant
            0 <= i <= n,
            n == code@.len(),
            1 <= n <= 5,
            spec_all_digits(code@.take(i as int)),
            val == spec_digits_val(code@.take(i as int)),
            val < spec_ten_pow(i as nat),
        decreases n - i,
    {
        let b = code[i];
        if b < 48 || b > 57 {
            assert(!spec_all_digits(code@));
            return LdrawColor::Main;
        }
        proof {
            lemma_take_succ(code@, i as int);
            assert(spec_ten_pow((i + 1) as nat) == 10 * spec_ten_pow(i as nat));
            assert(spec_all_digits(code@.take(i + 1))) by {
                assert(forall|j: int|
                    0 <= j < i ==> code@.take(i + 1)[j] == #[trigger] code@.take(i as int)[j]);
                assert(code@.take(i + 1)[i as int] == b);
            }
            lemma_ten_pow_le(i as nat, 4nat);
            assert(spec_ten_pow(4nat) == 10000) by {
                reveal_with_fuel(spec_ten_pow, 5);
            }
        }
        val = val * 10 + ((b - 48) as u32);
        i = i + 1;
    }
    proof {
        assert(code@.take(n as int) =~= code@);
        lemma_digits_val_bound(code@);
        lemma_ten_pow_le(code@.len() as nat, 5nat);
        assert(spec_ten_pow(5nat) == 100000) by {
            reveal_with_fuel(spec_ten_pow, 6);
        }
    }
    color_table(val)
}

} // verus!
