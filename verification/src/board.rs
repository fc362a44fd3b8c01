//! Board profiles: which GPIO pins a board exposes and what each can do.

use vstd::prelude::*;

use crate::config::ResourceUsage;
use crate::text::{concat, decimal, decimal_text, owned};

verus! {

#[derive(Debug, Clone, PartialEq, Eq)]
pub struct BoardProfile {
    pub id: String,
    pub name: String,
    pub gpio_pins: Vec<BoardGpioPin>,
}

#[derive(Debug, Clone, PartialEq, Eq)]
pub struct BoardGpioPin {
    pub number: u8,
    pub capabilities: GpioCapabilities,
    pub label: String,
}

#[derive(Debug, Clone, Copy, PartialEq, Eq, Structural)]
pub struct GpioCapabilities {
    pub input: bool,
    pub output: bool,
    pub pull_up: bool,
    pub pull_down: bool,
}

#[derive(Debug, Clone, PartialEq, Eq)]
pub struct BoardProfileSnapshot {
    pub id: String,
    pub name: String,
    pub gpio_pins: Vec<BoardGpioPinSnapshot>,
}

#[derive(Debug, Clone, PartialEq, Eq)]
pub struct BoardGpioPinSnapshot {
    pub number: u8,
    pub label: String,
    pub input: bool,
    pub output: bool,
    pub pull_up: bool,
    pub pull_down: bool,
}

/// A pin usable for input and output, with both pull resistors.
pub open spec fn io_pin() -> GpioCapabilities {
    GpioCapabilities { input: true, output: true, pull_up: true, pull_down: true }
}

/// A pin usable for input only, without pull resistors.
pub open spec fn input_only_pin() -> GpioCapabilities {
    GpioCapabilities { input: true, output: false, pull_up: false, pull_down: false }
}

/// The GPIO numbers that the ESP32 DevKit V1 profile exposes, in its order.
pub open spec fn devkit_pin_numbers() -> Seq<u8> {
    seq![4u8, 5, 12, 13, 14, 16, 17, 18, 19, 21, 22, 23, 25, 26, 27, 32, 33, 34, 35]
}

/// The capabilities of a pin of the ESP32 DevKit V1 profile: GPIO34 and
/// GPIO35 are input only, the others are full I/O pins.
pub open spec fn devkit_capabilities(number: u8) -> GpioCapabilities {
    if number == 34 || number == 35 {
        input_only_pin()
    } else {
        io_pin()
    }
}

/// The label of a GPIO pin: `GPIO` followed by its number.
pub open spec fn pin_label(number: u8) -> Seq<char> {
    "GPIO"@ + decimal(number as nat)
}

/// Whether `b` is the ESP32 DevKit V1 profile.
pub open spec fn is_esp32_devkit_v1(b: BoardProfile) -> bool {
    &&& b.id@ == "esp32-devkit-v1"@
    &&& b.name@ == "ESP32 DevKit V1"@
    &&& b.gpio_pins@.len() == devkit_pin_numbers().len()
    &&& forall|i: int|
        0 <= i < b.gpio_pins@.len() ==> {
            let p = #[trigger] b.gpio_pins@[i];
            &&& p.number == devkit_pin_numbers()[i]
            &&& p.capabilities == devkit_capabilities(p.number)
            &&& p.label@ == pin_label(p.number)
        }
}

/// Whether `i` is the first position of a pin numbered `pin`.
pub open spec fn is_first_pin(pins: Seq<BoardGpioPin>, pin: u8, i: int) -> bool {
    &&& 0 <= i < pins.len()
    &&& pins[i].number == pin
    &&& forall|j: int| 0 <= j < i ==> (#[trigger] pins[j]).number != pin
}

/// Whether the capabilities allow a usage.
pub open spec fn capability_allows(c: GpioCapabilities, usage: ResourceUsage) -> bool {
    match usage {
        ResourceUsage::Input => c.input,
        ResourceUsage::Output => c.output,
    }
}

/// Whether the board has pin `pin` and it supports `usage`.
pub open spec fn board_supports(b: BoardProfile, pin: u8, usage: ResourceUsage) -> bool {
    exists|i: int|
        is_first_pin(b.gpio_pins@, pin, i) && capability_allows(
            #[trigger] b.gpio_pins@[i].capabilities,
            usage,
        )
}

/// Whether `s` is the snapshot of `b`.
pub open spec fn is_board_snapshot(b: BoardProfile, s: BoardProfileSnapshot) -> bool {
    &&& s.id@ == b.id@
    &&& s.name@ == b.name@
    &&& s.gpio_pins@.len() == b.gpio_pins@.len()
    &&& forall|i: int|
        0 <= i < s.gpio_pins@.len() ==> {
            let p = #[trigger] b.gpio_pins@[i];
            let q = s.gpio_pins@[i];
            &&& q.number == p.number
            &&& q.label@ == p.label@
            &&& q.input == p.capabilities.input
            &&& q.output == p.capabilities.output
            &&& q.pull_up == p.capabilities.pull_up
            &&& q.pull_down == p.capabilities.pull_down
        }
}

fn devkit_pin(number: u8) -> (res: BoardGpioPin)
    ensures
        res.number == number,
        res.capabilities == devkit_capabilities(number),
        res.label@ == pin_label(number),
{
    let capabilities = if number == 34 || number == 35 {
        GpioCapabilities { input: true, output: false, pull_up: false, pull_down: false }
    } else {
        GpioCapabilities { input: true, output: true, pull_up: true, pull_down: true }
    };
    let digits = decimal_text(number as u64);
    BoardGpioPin { number, capabilities, label: concat("GPIO", digits.as_str()) }
}

impl BoardProfile {
    /// The ESP32 DevKit V1 board.
    pub fn esp32_devkit_v1() -> (res: BoardProfile)
        ensures
            is_esp32_devkit_v1(res),
    {
        let numbers: [u8; 19] = [4, 5, 12, 13, 14, 16, 17, 18, 19, 21, 22, 23, 25, 26, 27, 32, 33, 34, 35];
        assert(numbers@ =~= devkit_pin_numbers());
        let mut pins: Vec<BoardGpioPin> = Vec::new();
        for i in 0..19
            invariant
                numbers@ == devkit_pin_numbers(),
                pins@.len() == i,
                forall|k: int|
                    0 <= k < i ==> {
                        let p = #[trigger] pins@[k];
                        &&& p.number == devkit_pin_numbers()[k]
                        &&& p.capabilities == devkit_capabilities(p.number)
                        &&& p.label@ == pin_label(p.number)
                    },
        {
            pins.push(devkit_pin(numbers[i]));
        }
        BoardProfile { id: owned("esp32-devkit-v1"), name: owned("ESP32 DevKit V1"), gpio_pins: pins }
    }

    /// The first pin of the board numbered `pin`.
    pub fn gpio_pin(&self, pin: u8) -> (res: Option<&BoardGpioPin>)
        ensures
            match res {
                Some(p) => exists|i: int| is_first_pin(self.gpio_pins@, pin, i) && *p == #[trigger] self.gpio_pins@[i],
                None => forall|i: int| 0 <= i < self.gpio_pins@.len() ==> (#[trigger] self.gpio_pins@[i]).number != pin,
            },
    {
        let n = self.gpio_pins.len();
        for i in 0..n
            invariant
                n == self.gpio_pins@.len(),
                forall|j: int| 0 <= j < i ==> (#[trigger] self.gpio_pins@[j]).number != pin,
        {
            if self.gpio_pins[i].number == pin {
                assert(is_first_pin(self.gpio_pins@, pin, i as int));
                return Some(&self.gpio_pins[i]);
            }
        }
        None
    }

    /// Whether the board has pin `pin` and it can be used as `usage`.
    pub fn supports(&self, pin: u8, usage: ResourceUsage) -> (res: bool)
        ensures
            res == board_supports(*self, pin, usage),
    {
        match self.gpio_pin(pin) {
            None => false,
            Some(gpio_pin) => {
                proof {
                    let i = choose|i: int| is_first_pin(self.gpio_pins@, pin, i) && *gpio_pin == #[trigger] self.gpio_pins@[i];
                    assert forall|j: int| is_first_pin(self.gpio_pins@, pin, j) implies j == i by {
                        if j < i {
                            assert(self.gpio_pins@[j].number != pin);
                        } else if j > i {
                            assert(self.gpio_pins@[i].number != pin);
                        }
                    }
                }
                match usage {
                    ResourceUsage::Input => gpio_pin.capabilities.input,
                    ResourceUsage::Output => gpio_pin.capabilities.output,
                }
            },
        }
    }

    /// A plain description of the board, as it is published.
    pub fn snapshot(&self) -> (res: BoardProfileSnapshot)
        ensures
            is_board_snapshot(*self, res),
    {
        let mut pins: Vec<BoardGpioPinSnapshot> = Vec::new();
        let n = self.gpio_pins.len();
        for i in 0..n
            invariant
                n == self.gpio_pins@.len(),
                pins@.len() == i,
                forall|k: int|
                    0 <= k < i ==> {
                        let p = #[trigger] self.gpio_pins@[k];
                        let q = pins@[k];
                        &&& q.number == p.number
                        &&& q.label@ == p.label@
                        &&& q.input == p.capabilities.input
                        &&& q.output == p.capabilities.output
                        &&& q.pull_up == p.capabilities.pull_up
                        &&& q.pull_down == p.capabilities.pull_down
                    },
        {
            let pin = &self.gpio_pins[i];
            pins.push(
                BoardGpioPinSnapshot {
                    number: pin.number,
                    label: pin.label.clone(),
                    input: pin.capabilities.input,
                    output: pin.capabilities.output,
                    pull_up: pin.capabilities.pull_up,
                    pull_down: pin.capabilities.pull_down,
                },
            );
        }
        BoardProfileSnapshot { id: self.id.clone(), name: self.name.clone(), gpio_pins: pins }
    }
}

} // verus!
