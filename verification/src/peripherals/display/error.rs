use crate::hardware::error::SpiError;
use vstd::prelude::*;
use vstd::string::StringExecFns;

verus! {

/// The character of a decimal digit.
pub open spec fn digit_char(digit: int) -> char {
    if digit == 0 {
        '0'
    } else if digit == 1 {
        '1'
    } else if digit == 2 {
        '2'
    } else if digit == 3 {
        '3'
    } else if digit == 4 {
        '4'
    } else if digit == 5 {
        '5'
    } else if digit == 6 {
        '6'
    } else if digit == 7 {
        '7'
    } else if digit == 8 {
        '8'
    } else {
        '9'
    }
}

/// A number in decimal, without leading zeros.
pub open spec fn decimal(value: nat) -> Seq<char>
    decreases value,
{
    if value < 10 {
        seq![digit_char(value as int)]
    } else {
        decimal(value / 10).push(digit_char((value % 10) as int))
    }
}

/// Appends one decimal digit to `text`.
fn push_digit(text: &mut String, digit: u16)
    requires
        digit < 10,
    ensures
        final(text)@ == old(text)@.push(digit_char(digit as int)),
{
    proof {
        reveal_strlit("0");
        reveal_strlit("1");
        reveal_strlit("2");
        reveal_strlit("3");
        reveal_strlit("4");
        reveal_strlit("5");
        reveal_strlit("6");
        reveal_strlit("7");
        reveal_strlit("8");
        reveal_strlit("9");
    }
    let glyph: &str = if digit == 0 {
        "0"
    } else if digit == 1 {
        "1"
    } else if digit == 2 {
        "2"
    } else if digit == 3 {
        "3"
    } else if digit == 4 {
        "4"
    } else if digit == 5 {
        "5"
    } else if digit == 6 {
        "6"
    } else if digit == 7 {
        "7"
    } else if digit == 8 {
        "8"
    } else {
        "9"
    };
    assert(glyph@ =~= seq![digit_char(digit as int)]);
    text.append(glyph);
    assert(text@ =~= old(text)@.push(digit_char(digit as int)));
}

/// Appends `value` in decimal to `text`.
fn push_decimal(text: &mut String, value: u16)
    ensures
        final(text)@ == old(text)@ + decimal(value as nat),
    decreases value,
{
    if value >= 10 {
        push_decimal(text, value / 10);
    }
    push_digit(text, value % 10);
    assert(text@ =~= old(text)@ + decimal(value as nat));
}

/// A failure of a display operation.
#[derive(Debug, Clone, PartialEq, Eq)]
pub enum DisplayError {
    /// The bus refused or failed a transfer.
    Spi(SpiError),
    /// The operation does not fit the display's present state.
    InvalidOperation(&'static str),
    /// A window or a pixel lies outside the panel, or a window's corners are
    /// out of order.
    ///
    /// What the four fields hold depends on the fault. Corners out of order
    /// are reported as they were given: `(x1, y1)` is the first corner and
    /// `(x2, y2)` the second. A corner or a pixel off the panel is reported
    /// in `x1`, `y1`, and `x2`, `y2` then hold the panel's width and
    /// height, the bounds it had to stay below; of two corners off the
    /// panel the first is the one reported.
    OutOfBounds { x1: u16, y1: u16, x2: u16, y2: u16 },
}

impl DisplayError {
    /// The error in words.
    pub open spec fn message(self) -> Seq<char> {
        match self {
            DisplayError::Spi(err) => "SPI error in display: "@ + err.message(),
            DisplayError::InvalidOperation(msg) => "Invalid display operation: "@ + msg@,
            DisplayError::OutOfBounds { x1, y1, x2, y2 } => "Coordinates out of bounds: ("@
                + decimal(x1 as nat) + ", "@ + decimal(y1 as nat) + ") >= ("@ + decimal(x2 as nat)
                + ", "@ + decimal(y2 as nat) + ")"@,
        }
    }

    /// The error in words.
    pub fn to_string(&self) -> (text: String)
        ensures
            text@ == self.message(),
    {
        match self {
            DisplayError::Spi(err) => String::from_str("SPI error in display: ").concat(
                err.to_string().as_str(),
            ),
            DisplayError::InvalidOperation(msg) => String::from_str(
                "Invalid display operation: ",
            ).concat(msg),
            DisplayError::OutOfBounds { x1, y1, x2, y2 } => {
                let mut text = String::from_str("Coordinates out of bounds: (");
                push_decimal(&mut text, *x1);
                text.append(", ");
                push_decimal(&mut text, *y1);
                text.append(") >= (");
                push_decimal(&mut text, *x2);
                text.append(", ");
                push_decimal(&mut text, *y2);
                text.append(")");
                text
            },
        }
    }
}

impl From<SpiError> for DisplayError {
    fn from(err: SpiError) -> (error: Self) {
        Self::Spi(err)
    }
}

impl vstd::std_specs::convert::FromSpecImpl<SpiError> for DisplayError {
    open spec fn obeys_from_spec() -> bool {
        true
    }

    open spec fn from_spec(err: SpiError) -> Self {
        DisplayError::Spi(err)
    }
}

} // verus!
