//! From command line values to a checked configuration.

use crate::duration::{parse, ParseError};
use crate::plan::default_runway;
use crate::text::format_decimal;
use crate::time::Duration;
use vstd::prelude::*;

verus! {

/// The factor that each wait is multiplied by, as the bit pattern of a
/// double-precision number.
#[derive(Debug, Clone, Copy, PartialEq, Eq, Structural)]
pub struct DecayFactor {
    pub bits: u64,
}

impl DecayFactor {
    /// Whether the number is below zero, or negative zero.
    pub open spec fn is_negative(self) -> bool {
        self.bits >= 0x8000_0000_0000_0000
    }

    /// The biased exponent.
    pub open spec fn exponent(self) -> nat {
        (self.bits as nat / 0x10_0000_0000_0000) % 2048
    }

    /// The digits behind the leading one.
    pub open spec fn fraction(self) -> nat {
        self.bits as nat % 0x10_0000_0000_0000
    }

    /// Whether the bits stand for a number at all, and a finite one.
    pub open spec fn is_finite(self) -> bool {
        self.exponent() < 2047
    }

    /// The absolute value of a finite number, in units of the smallest
    /// positive one, which is two to the power of -1074.
    pub open spec fn magnitude(self) -> nat {
        if self.exponent() == 0 {
            self.fraction()
        } else {
            (0x10_0000_0000_0000 + self.fraction()) * vstd::arithmetic::power2::pow2(
                (self.exponent() - 1) as nat,
            )
        }
    }

    /// Whether the number lies strictly between zero and one.
    pub open spec fn is_between_zero_and_one(self) -> bool {
        &&& self.is_finite()
        &&& !self.is_negative()
        &&& 0 < self.magnitude() < vstd::arithmetic::power2::pow2(1074)
    }

    /// Whether the factor makes waits shorter and keeps them above zero: it
    /// lies strictly between zero and one.
    ///
    /// Numbers that are not negative are in the order of their bit patterns,
    /// and what is no number comes after all of them.
    pub fn is_valid(&self) -> (valid: bool)
        ensures
            valid == self.is_between_zero_and_one(),
    {
        proof {
            self.order_of_bits();
        }
        0 < self.bits && self.bits < 0x3ff0_0000_0000_0000
    }

    /// The bit patterns of the numbers between zero and one are those between
    /// the ones of zero and of one.
    pub proof fn order_of_bits(self)
        ensures
            self.is_between_zero_and_one() <==> 0 < self.bits < 0x3ff0_0000_0000_0000,
    {
        let e = self.exponent();
        let f = self.fraction();
        let two52 = 0x10_0000_0000_0000nat;
        let top = self.bits as nat / two52;
        vstd::arithmetic::power2::lemma2_to64();
        vstd::arithmetic::power2::lemma2_to64_rest();
        assert(self.bits == top * two52 + f);
        if self.bits < 0x3ff0_0000_0000_0000 {
            assert(top < 1023);
            assert(e == top);
            if e == 0 {
                vstd::arithmetic::power2::lemma_pow2_strictly_increases(52, 1074);
            } else {
                let p = vstd::arithmetic::power2::pow2((e - 1) as nat);
                let q = vstd::arithmetic::power2::pow2(1021);
                vstd::arithmetic::power2::lemma_pow2_pos((e - 1) as nat);
                if e - 1 < 1021 {
                    vstd::arithmetic::power2::lemma_pow2_strictly_increases((e - 1) as nat, 1021);
                }
                vstd::arithmetic::power2::lemma_pow2_adds(53, 1021);
                assert(0 < (two52 + f) * p < (2 * two52) * q) by (nonlinear_arith)
                    requires
                        f < two52,
                        0 < p <= q,
                ;
            }
        } else if !self.is_negative() && e < 2047 {
            assert(top < 2048);
            assert(e == top >= 1023);
            let p = vstd::arithmetic::power2::pow2((e - 1) as nat);
            let q = vstd::arithmetic::power2::pow2(1022);
            if e - 1 > 1022 {
                vstd::arithmetic::power2::lemma_pow2_strictly_increases(1022, (e - 1) as nat);
            }
            vstd::arithmetic::power2::lemma_pow2_adds(52, 1022);
            assert((two52 + f) * p >= two52 * q) by (nonlinear_arith)
                requires
                    p >= q,
            ;
        }
    }
}

/// What the command line says, durations still as text.
#[derive(Debug)]
pub struct Cli {
    /// Initial duration before the first alert.
    pub duration: String,
    /// Total nudging "runway" after the first alert, or `None` for the
    /// default.
    pub runway: Option<String>,
    /// Decay factor applied to the wait between alerts.
    pub decay: DecayFactor,
    /// Floor for the wait between alerts.
    pub floor: String,
    /// Message displayed on the red overlay.
    pub message: String,
    /// How long the red overlay stays visible per alert.
    pub alert_duration: String,
    /// Whether to beep on each alert.
    pub beep: bool,
}

/// What is wrong with a command line.
#[derive(Debug, Clone, Copy, PartialEq, Eq, Structural)]
pub enum ConfigError {
    /// The decay factor is not between zero and one.
    Decay,
    /// The initial duration cannot be read.
    Duration(ParseError),
    /// The floor cannot be read.
    Floor(ParseError),
    /// The alert duration cannot be read.
    AlertDuration(ParseError),
    /// The runway cannot be read.
    Runway(ParseError),
    /// The initial duration is not above the floor; both in seconds.
    DurationNotAboveFloor(u64, u64),
    /// The runway is not above the floor; both in seconds.
    RunwayNotAboveFloor(u64, u64),
}

/// The wording for a length of time that is not above the floor.
pub open spec fn not_above_floor(what: Seq<char>, secs: u64, floor: u64) -> Seq<char> {
    what + " ("@ + crate::text::decimal(secs as nat) + "s) must be greater than --floor ("@
        + crate::text::decimal(floor as nat) + "s)"@
}

/// The wording for a length of time that is not above the floor.
fn format_not_above_floor(what: &str, secs: u64, floor: u64) -> (text: String)
    ensures
        text@ == not_above_floor(what@, secs, floor),
{
    let mut text = what.to_owned();
    text.append(" (");
    text.append(format_decimal(secs).as_str());
    text.append("s) must be greater than --floor (");
    text.append(format_decimal(floor).as_str());
    text.append("s)");
    text
}

impl ConfigError {
    /// The wording of the error, where the decay factor reads `decay`.
    pub open spec fn text(self, decay: Seq<char>) -> Seq<char> {
        match self {
            ConfigError::Decay => "--decay must be in (0, 1), got "@ + decay,
            ConfigError::Duration(e) => "invalid <DURATION>: "@ + e.text(),
            ConfigError::Floor(e) => "invalid --floor: "@ + e.text(),
            ConfigError::AlertDuration(e) => "invalid --alert-duration: "@ + e.text(),
            ConfigError::Runway(e) => "invalid <RUNWAY>: "@ + e.text(),
            ConfigError::DurationNotAboveFloor(secs, floor) => not_above_floor(
                "<DURATION>"@,
                secs,
                floor,
            ),
            ConfigError::RunwayNotAboveFloor(secs, floor) => not_above_floor(
                "<RUNWAY>"@,
                secs,
                floor,
            ),
        }
    }

    /// The error in words, where the decay factor reads `decay`.
    pub fn message(&self, decay: &str) -> (text: String)
        ensures
            text@ == self.text(decay@),
    {
        match *self {
            ConfigError::Decay => "--decay must be in (0, 1), got ".to_owned().concat(decay),
            ConfigError::Duration(e) => "invalid <DURATION>: ".to_owned().concat(
                e.to_string().as_str(),
            ),
            ConfigError::Floor(e) => "invalid --floor: ".to_owned().concat(
                e.to_string().as_str(),
            ),
            ConfigError::AlertDuration(e) => "invalid --alert-duration: ".to_owned().concat(
                e.to_string().as_str(),
            ),
            ConfigError::Runway(e) => "invalid <RUNWAY>: ".to_owned().concat(
                e.to_string().as_str(),
            ),
            ConfigError::DurationNotAboveFloor(secs, floor) => {
                format_not_above_floor("<DURATION>", secs, floor)
            },
            ConfigError::RunwayNotAboveFloor(secs, floor) => {
                format_not_above_floor("<RUNWAY>", secs, floor)
            },
        }
    }
}

impl Cli {
    /// The runway in seconds: what is given, or the default for the initial
    /// duration.
    pub open spec fn runway_secs(self) -> Result<nat, ParseError> {
        match self.runway {
            Some(runway) => crate::duration::parsed(runway@),
            None => match crate::duration::parsed(self.duration@) {
                Ok(secs) => Ok(
                    crate::plan::default_runway_nanos(secs * 1_000_000_000) / 1_000_000_000,
                ),
                Err(e) => Err(e),
            },
        }
    }

    /// The first thing that is wrong with the command line, if anything is.
    pub open spec fn error(self) -> Option<ConfigError> {
        if !self.decay.is_between_zero_and_one() {
            Some(ConfigError::Decay)
        } else {
            match (
                crate::duration::parsed(self.duration@),
                crate::duration::parsed(self.floor@),
                crate::duration::parsed(self.alert_duration@),
                self.runway_secs(),
            ) {
                (Err(e), _, _, _) => Some(ConfigError::Duration(e)),
                (_, Err(e), _, _) => Some(ConfigError::Floor(e)),
                (_, _, Err(e), _) => Some(ConfigError::AlertDuration(e)),
                (_, _, _, Err(e)) => Some(ConfigError::Runway(e)),
                (Ok(initial), Ok(floor), Ok(_), Ok(runway)) => {
                    if initial <= floor {
                        Some(ConfigError::DurationNotAboveFloor(initial as u64, floor as u64))
                    } else if runway <= floor {
                        Some(ConfigError::RunwayNotAboveFloor(runway as u64, floor as u64))
                    } else {
                        None
                    }
                },
            }
        }
    }
}

/// A checked configuration.
#[derive(Debug)]
pub struct Config {
    pub initial: Duration,
    pub runway: Duration,
    pub decay: DecayFactor,
    pub floor: Duration,
    pub message: String,
    pub alert_duration: Duration,
    pub beep: bool,
}

impl Config {
    /// Whether the values fit together: the initial wait and the runway are
    /// above the floor, no length of time is zero, and the decay factor is
    /// between zero and one.
    pub open spec fn is_valid(self) -> bool {
        &&& self.initial@ > self.floor@ > 0
        &&& self.runway@ > self.floor@
        &&& self.alert_duration@ > 0
        &&& self.decay.is_between_zero_and_one()
    }

    /// Whether this is what the command line says.
    pub open spec fn is_from(self, cli: Cli) -> bool {
        &&& crate::duration::parsed(cli.duration@) matches Ok(secs)
        &&& self.initial@ == secs * 1_000_000_000
        &&& cli.runway_secs() matches Ok(secs)
        &&& self.runway@ == secs * 1_000_000_000
        &&& crate::duration::parsed(cli.floor@) matches Ok(secs)
        &&& self.floor@ == secs * 1_000_000_000
        &&& crate::duration::parsed(cli.alert_duration@) matches Ok(secs)
        &&& self.alert_duration@ == secs * 1_000_000_000
        &&& self.decay == cli.decay
        &&& self.message == cli.message
        &&& self.beep == cli.beep
    }

    /// Check what the command line says.
    pub fn from_cli(cli: Cli) -> (result: Result<Self, ConfigError>)
        ensures
            match result {
                Ok(config) => cli.error() is None && config.is_from(cli) && config.is_valid(),
                Err(e) => cli.error() == Some(e),
            },
    {
        if !cli.decay.is_valid() {
            return Err(ConfigError::Decay);
        }
        let initial = match parse(cli.duration.as_str()) {
            Ok(d) => d,
            Err(e) => {
                return Err(ConfigError::Duration(e));
            },
        };
        let floor = match parse(cli.floor.as_str()) {
            Ok(d) => d,
            Err(e) => {
                return Err(ConfigError::Floor(e));
            },
        };
        let alert_duration = match parse(cli.alert_duration.as_str()) {
            Ok(d) => d,
            Err(e) => {
                return Err(ConfigError::AlertDuration(e));
            },
        };
        let runway = match &cli.runway {
            Some(s) => match parse(s.as_str()) {
                Ok(d) => d,
                Err(e) => {
                    return Err(ConfigError::Runway(e));
                },
            },
            None => default_runway(initial),
        };
        if initial <= floor {
            return Err(ConfigError::DurationNotAboveFloor(initial.as_secs(), floor.as_secs()));
        }
        if runway <= floor {
            return Err(ConfigError::RunwayNotAboveFloor(runway.as_secs(), floor.as_secs()));
        }
        Ok(
            Config {
                initial,
                runway,
                decay: cli.decay,
                floor,
                message: cli.message,
                alert_duration,
                beep: cli.beep,
            },
        )
    }
}

/// What a command line that is accepted says is kept: every length of time is
/// what its text stands for, a runway that is given as much as the others.
/// The default runway is for a command line without one.
pub proof fn accepted_values_are_kept(cli: Cli, config: Config)
    requires
        cli.error() is None,
        config.is_from(cli),
    ensures
        crate::duration::parsed(cli.duration@) == Ok::<nat, ParseError>(
            (config.initial@ / 1_000_000_000) as nat,
        ),
        crate::duration::parsed(cli.floor@) == Ok::<nat, ParseError>(
            (config.floor@ / 1_000_000_000) as nat,
        ),
        crate::duration::parsed(cli.alert_duration@) == Ok::<nat, ParseError>(
            (config.alert_duration@ / 1_000_000_000) as nat,
        ),
        cli.runway matches Some(text) ==> crate::duration::parsed(text@) == Ok::<nat, ParseError>(
            (config.runway@ / 1_000_000_000) as nat,
        ),
        cli.runway is None ==> config.runway@ == if config.initial@ < 2 * 3600 * 1_000_000_000 {
            10 * 60 * 1_000_000_000
        } else {
            20 * 60 * 1_000_000_000
        },
        config.initial@ % 1_000_000_000 == 0,
        config.floor@ % 1_000_000_000 == 0,
        config.alert_duration@ % 1_000_000_000 == 0,
        config.runway@ % 1_000_000_000 == 0,
        config.initial@ > config.floor@ > 0,
        config.runway@ > config.floor@,
        config.alert_duration@ > 0,
        0 < config.decay.bits < 0x3ff0_0000_0000_0000,
        config.decay == cli.decay,
        config.message@ == cli.message@,
        config.beep == cli.beep,
{
    cli.decay.order_of_bits();
    parsed_in_range(cli.duration@);
    parsed_in_range(cli.floor@);
    parsed_in_range(cli.alert_duration@);
}

/// A runway that is given as a number of hours, of minutes and of seconds,
/// each of which may be left out, is exactly that long, whatever the rest of
/// the command line says.
pub proof fn given_runway_is_what_it_spells(
    cli: Cli,
    config: Config,
    text: String,
    h: Seq<char>,
    m: Seq<char>,
    sec: Seq<char>,
)
    requires
        cli.error() is None,
        config.is_from(cli),
        cli.runway == Some(text),
        forall|i: int| 0 <= i < h.len() ==> '0' <= #[trigger] h[i] <= '9',
        forall|i: int| 0 <= i < m.len() ==> '0' <= #[trigger] m[i] <= '9',
        forall|i: int| 0 <= i < sec.len() ==> '0' <= #[trigger] sec[i] <= '9',
        text@ == (if h.len() > 0 {
            h.push('h')
        } else {
            Seq::empty()
        }) + (if m.len() > 0 {
            m.push('m')
        } else {
            Seq::empty()
        }) + (if sec.len() > 0 {
            sec.push('s')
        } else {
            Seq::empty()
        }),
        3600 * crate::text::number(h) + 60 * crate::text::number(m) + crate::text::number(sec)
            <= u64::MAX,
    ensures
        config.runway@ == (3600 * crate::text::number(h) + 60 * crate::text::number(m)
            + crate::text::number(sec)) * 1_000_000_000,
{
    let none = Seq::<char>::empty();
    assert(text@ =~= (if h.len() > 0 {
        h.push('h')
    } else {
        Seq::empty()
    }) + (if m.len() > 0 {
        m.push('m')
    } else {
        Seq::empty()
    }) + (if sec.len() > 0 {
        sec.push('s')
    } else {
        Seq::empty()
    }) + none + none);
    crate::duration::parse_reports_first_problem(text@, h, m, sec, none, none);
    accepted_values_are_kept(cli, config);
}

/// A command line is refused for its first problem: the decay factor, then
/// the initial duration, the floor, the alert duration and the runway in this
/// order, then an initial duration and last a runway that is not above the
/// floor. It is accepted if there is none.
pub proof fn first_problem_is_reported(cli: Cli, e: ParseError, secs: u64, floor: u64)
    ensures
        ({
            let duration = crate::duration::parsed(cli.duration@);
            let least = crate::duration::parsed(cli.floor@);
            let alert = crate::duration::parsed(cli.alert_duration@);
            let given = match cli.runway {
                Some(text) => crate::duration::parsed(text@),
                None => if duration matches Ok(initial) && initial >= 7200 {
                    Ok::<nat, ParseError>(1200)
                } else {
                    Ok(600)
                },
            };
            let decays = 0 < cli.decay.bits < 0x3ff0_0000_0000_0000;
            let readable = decays && duration is Ok && least is Ok && alert is Ok;
            &&& cli.error() == Some(ConfigError::Decay) <==> !decays
            &&& cli.error() == Some(ConfigError::Duration(e)) <==> decays && duration == Err::<
                nat,
                ParseError,
            >(e)
            &&& cli.error() == Some(ConfigError::Floor(e)) <==> decays && duration is Ok && least
                == Err::<nat, ParseError>(e)
            &&& cli.error() == Some(ConfigError::AlertDuration(e)) <==> decays && duration is Ok
                && least is Ok && alert == Err::<nat, ParseError>(e)
            &&& cli.error() == Some(ConfigError::Runway(e)) <==> readable && given == Err::<
                nat,
                ParseError,
            >(e)
            &&& cli.error() == Some(ConfigError::DurationNotAboveFloor(secs, floor)) <==> readable
                && given is Ok && duration->Ok_0 == secs && least->Ok_0 == floor && secs <= floor
            &&& cli.error() == Some(ConfigError::RunwayNotAboveFloor(secs, floor)) <==> readable
                && given is Ok && given->Ok_0 == secs && least->Ok_0 == floor && secs <= floor
                && duration->Ok_0 > floor
            &&& cli.error() is None <==> readable && given is Ok && duration->Ok_0 > least->Ok_0
                && given->Ok_0 > least->Ok_0
        }),
{
    cli.decay.order_of_bits();
    parsed_in_range(cli.duration@);
    parsed_in_range(cli.floor@);
    if let Some(text) = cli.runway {
        parsed_in_range(text@);
    }
}

/// What was read can be counted, and is not zero.
proof fn parsed_in_range(s: Seq<char>)
    ensures
        crate::duration::parsed(s) matches Ok(secs) ==> 0 < secs <= u64::MAX,
{
    if let Ok(secs) = crate::duration::parsed(s) {
        crate::duration::parse_follows_grammar(s, secs);
    }
}

/// The wording of an error names the value that is wrong and says why.
pub proof fn errors_name_the_value(
    decay: Seq<char>,
    e: ParseError,
    secs: u64,
    floor: u64,
    secs_digits: Seq<char>,
    floor_digits: Seq<char>,
)
    requires
        crate::text::is_numeral(secs_digits, secs as nat),
        crate::text::is_numeral(floor_digits, floor as nat),
    ensures
        ConfigError::Decay.text(decay) == "--decay must be in (0, 1), got "@ + decay,
        ConfigError::Duration(e).text(decay) == "invalid <DURATION>: "@ + e.text(),
        ConfigError::Floor(e).text(decay) == "invalid --floor: "@ + e.text(),
        ConfigError::AlertDuration(e).text(decay) == "invalid --alert-duration: "@ + e.text(),
        ConfigError::Runway(e).text(decay) == "invalid <RUNWAY>: "@ + e.text(),
        ConfigError::DurationNotAboveFloor(secs, floor).text(decay) == "<DURATION>"@ + " ("@
            + secs_digits + "s) must be greater than --floor ("@ + floor_digits + "s)"@,
        ConfigError::RunwayNotAboveFloor(secs, floor).text(decay) == "<RUNWAY>"@ + " ("@
            + secs_digits + "s) must be greater than --floor ("@ + floor_digits + "s)"@,
{
    crate::text::numerals_are_unique(secs_digits, secs as nat);
    crate::text::numerals_are_unique(floor_digits, floor as nat);
}

} // verus!
