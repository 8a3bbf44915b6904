//! Device colour spaces and the operators that select a colour.

use vstd::prelude::*;
use vstd::string::StringSliceAdditionalSpecFns;
use crate::bytes::push_str;
use crate::identifier::{identifier_bytes, Identifier};
use crate::number::Number;

verus! {

/// Why a value cannot be a CMYK component.
#[derive(Debug, Clone, Copy, PartialEq, Eq, Structural)]
pub enum CmykValueErr {
    /// The value lies above 100.
    OutOfRange(u8),
}

impl CmykValueErr {
    /// A human-readable description of the error.
    pub fn message(&self) -> &'static str {
        match self {
            CmykValueErr::OutOfRange(_) => "Provided value is out of range",
        }
    }
}

/// A CMYK component, in percent: 0 to 100.
#[derive(Debug, Clone, Copy, PartialEq, Eq, Structural)]
pub struct CmykValue(u8);

impl CmykValue {
    /// The percentage.
    pub closed spec fn value(&self) -> u8 {
        self.0
    }

    /// The component's invariant: at most 100 percent.
    pub closed spec fn wf(&self) -> bool {
        self.0 <= 100
    }

    /// The component `N` percent, for a constant `N` of at most 100.
    pub fn from_const<const N: u8>() -> (r: Self)
        requires
            N <= 100,
        ensures
            r.value() == N,
            r.wf(),
    {
        CmykValue(N)
    }

    /// The percentage.
    pub fn get(&self) -> (r: u8)
        ensures
            r == self.value(),
    {
        self.0
    }
}

impl TryFrom<u8> for CmykValue {
    type Error = CmykValueErr;

    /// The component `value` percent; values above 100 are out of range.
    fn try_from(value: u8) -> (r: Result<Self, Self::Error>)
        ensures
            r is Err <==> value > 100,
            r is Ok ==> r->Ok_0.value() == value && r->Ok_0.wf(),
            r is Err ==> r == Err::<Self, CmykValueErr>(CmykValueErr::OutOfRange(value)),
    {
        if value > 100 {
            return Err(CmykValueErr::OutOfRange(value));
        }
        Ok(CmykValue(value))
    }
}

impl vstd::std_specs::convert::TryFromSpecImpl<u8> for CmykValue {
    open spec fn obeys_try_from_spec() -> bool {
        true
    }

    closed spec fn try_from_spec(value: u8) -> Result<Self, CmykValueErr> {
        if value > 100 {
            Err(CmykValueErr::OutOfRange(value))
        } else {
            Ok(CmykValue(value))
        }
    }
}

impl From<CmykValue> for u8 {
    fn from(value: CmykValue) -> (r: u8) {
        value.0
    }
}

impl vstd::std_specs::convert::FromSpecImpl<CmykValue> for u8 {
    open spec fn obeys_from_spec() -> bool {
        true
    }

    closed spec fn from_spec(value: CmykValue) -> u8 {
        value.0
    }
}

/// A colour in one of the device colour spaces.
#[derive(Debug, Clone, Copy, PartialEq, Eq, Structural)]
pub enum Color {
    /// Red, green and blue intensities, each 0 to 255.
    Rgb {
        /// Red intensity.
        red: u8,
        /// Green intensity.
        green: u8,
        /// Blue intensity.
        blue: u8,
    },
    /// A gray level from 0 (black) to 255 (white).
    Gray(u8),
    /// Cyan, magenta, yellow and black concentrations, each in percent.
    CMYK {
        /// Cyan concentration.
        cyan: CmykValue,
        /// Magenta concentration.
        magenta: CmykValue,
        /// Yellow concentration.
        yellow: CmykValue,
        /// Black concentration.
        black: CmykValue,
    },
}

/// The name of the colour space of `c`.
pub open spec fn space_name(c: Color) -> Seq<u8> {
    match c {
        Color::Rgb { .. } => "DeviceRGB".spec_bytes(),
        Color::Gray(_) => "DeviceGray".spec_bytes(),
        Color::CMYK { .. } => "DeviceCMYK".spec_bytes(),
    }
}

/// The number of components of a colour in the space of `c`.
pub open spec fn component_count(c: Color) -> nat {
    match c {
        Color::Rgb { .. } => 3,
        Color::Gray(_) => 1,
        Color::CMYK { .. } => 4,
    }
}

/// The component values, each followed by a space.
pub open spec fn values_bytes(values: Seq<Number>) -> Seq<u8>
    decreases values.len(),
{
    if values.len() == 0 {
        Seq::empty()
    } else {
        values_bytes(values.drop_last()) + values.last()@ + " ".spec_bytes()
    }
}

/// The operators selecting colour `c` with normalized components `values`: the colour space
/// operator `cs_op` after the space's name, then the values and the colour operator `sc_op`.
pub open spec fn color_ops_bytes(c: Color, cs_op: Seq<u8>, sc_op: Seq<u8>, values: Seq<Number>) -> Seq<u8> {
    identifier_bytes(space_name(c)) + cs_op + "\n".spec_bytes() + values_bytes(values) + sc_op
        + "\n".spec_bytes()
}

impl Color {
    /// Black in the RGB space, the colour used when none is chosen.
    pub fn black() -> (r: Self)
        ensures
            r == (Color::Rgb { red: 0, green: 0, blue: 0 }),
    {
        Color::Rgb { red: 0, green: 0, blue: 0 }
    }

    /// The raw components: intensities 0 to 255, or CMYK percentages.
    pub fn components(&self) -> (r: Vec<u8>)
        ensures
            r@.len() == component_count(*self),
            r@ == match *self {
                Color::Rgb { red, green, blue } => seq![red, green, blue],
                Color::Gray(g) => seq![g],
                Color::CMYK { cyan, magenta, yellow, black } => seq![
                    cyan.value(),
                    magenta.value(),
                    yellow.value(),
                    black.value(),
                ],
            },
    {
        match *self {
            Color::Rgb { red, green, blue } => vec![red, green, blue],
            Color::Gray(g) => vec![g],
            Color::CMYK { cyan, magenta, yellow, black } => vec![cyan.0, magenta.0, yellow.0, black.0],
        }
    }

    /// The value of a full component: 255 for RGB and gray, 100 for CMYK.
    pub fn max_value(&self) -> (r: u8)
        ensures
            r == match *self {
                Color::CMYK { .. } => 100u8,
                _ => 255u8,
            },
    {
        match *self {
            Color::CMYK { .. } => 100,
            _ => 255,
        }
    }

    /// The name of the colour space.
    pub fn identifier(&self) -> (r: Identifier)
        ensures
            r@ == space_name(*self),
            r.wf(),
    {
        match self {
            Color::Rgb { .. } => {
                proof {
                    reveal_strlit("DeviceRGB");
                    vstd::string::is_ascii_spec_bytes("DeviceRGB");
                }
                Identifier::from_str("DeviceRGB")
            },
            Color::Gray(_) => {
                proof {
                    reveal_strlit("DeviceGray");
                    vstd::string::is_ascii_spec_bytes("DeviceGray");
                }
                Identifier::from_str("DeviceGray")
            },
            Color::CMYK { .. } => {
                proof {
                    reveal_strlit("DeviceCMYK");
                    vstd::string::is_ascii_spec_bytes("DeviceCMYK");
                }
                Identifier::from_str("DeviceCMYK")
            },
        }
    }

    /// Appends the stroking colour operators (`CS`, `SC`) for this colour, whose components,
    /// each divided by `max_value`, are written as `values`.
    pub fn write_stroke(&self, out: &mut Vec<u8>, values: &Vec<Number>) -> (n: usize)
        requires
            values@.len() == component_count(*self),
        ensures
            final(out)@ == old(out)@ + color_ops_bytes(*self, "CS".spec_bytes(), "SC".spec_bytes(), values@),
            n == color_ops_bytes(*self, "CS".spec_bytes(), "SC".spec_bytes(), values@).len(),
    {
        self.inner_write(out, "CS", "SC", values)
    }

    /// Appends the non-stroking (fill) colour operators (`cs`, `sc`) for this colour, whose
    /// components, each divided by `max_value`, are written as `values`.
    pub fn write_non_stroke(&self, out: &mut Vec<u8>, values: &Vec<Number>) -> (n: usize)
        requires
            values@.len() == component_count(*self),
        ensures
            final(out)@ == old(out)@ + color_ops_bytes(*self, "cs".spec_bytes(), "sc".spec_bytes(), values@),
            n == color_ops_bytes(*self, "cs".spec_bytes(), "sc".spec_bytes(), values@).len(),
    {
        self.inner_write(out, "cs", "sc", values)
    }

    /// Appends the colour space selection and the colour setting operators.
    fn inner_write(&self, out: &mut Vec<u8>, cs_operator: &str, sc_operator: &str, values: &Vec<Number>) -> (n: usize)
        ensures
            final(out)@ == old(out)@ + color_ops_bytes(*self, cs_operator.spec_bytes(), sc_operator.spec_bytes(), values@),
            n == color_ops_bytes(*self, cs_operator.spec_bytes(), sc_operator.spec_bytes(), values@).len(),
    {
        let ghost start = out@;
        let first = out.len();
        self.identifier().write(out);
        push_str(out, cs_operator);
        push_str(out, "\n");
        let ghost head = out@;
        let mut i: usize = 0;
        while i < values.len()
            invariant
                i <= values@.len(),
                out@ == head + values_bytes(values@.subrange(0, i as int)),
            decreases values@.len() - i,
        {
            values[i].write(out);
            push_str(out, " ");
            proof {
                let s = values@.subrange(0, i as int + 1);
                assert(s.drop_last() =~= values@.subrange(0, i as int));
            }
            i += 1;
        }
        assert(values@.subrange(0, values@.len() as int) =~= values@);
        push_str(out, sc_operator);
        push_str(out, "\n");
        assert(out@ =~= start + color_ops_bytes(*self, cs_operator.spec_bytes(), sc_operator.spec_bytes(), values@));
        out.len() - first
    }
}

} // verus!
