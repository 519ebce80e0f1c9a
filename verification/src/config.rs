//! The configuration data model: the raw document as the author wrote it,
//! the compiled document the daemons consume, and the built-in default
//! used when every other source of configuration fails.

use crate::curve::{
    curve_value, matrix_mapper, wf_points, ControlPoint, TempMatrixYAML, TemperatureCurve,
};
use vstd::prelude::*;

verus! {

/// The fan-speed re-evaluation threshold: the fan is left alone while
/// the temperature stays within `amount` degrees of the last applied
/// reading, and `only_way_down` forbids lowering the speed within the
/// band.
#[derive(Clone, Copy, PartialEq, Eq, Structural, Debug)]
pub struct Hysteresis {
    pub amount: u8,
    pub only_way_down: bool,
}

/// An external program to run in place of the built-in shutdown or
/// reboot command.
#[derive(PartialEq, Debug)]
pub struct PowerScript {
    pub location: String,
    pub args: Vec<String>,
}

/// The mathematical value of a `PowerScript`.
pub struct PowerScriptV {
    pub location: Seq<char>,
    pub args: Seq<Seq<char>>,
}

impl View for PowerScript {
    type V = PowerScriptV;

    open spec fn view(&self) -> PowerScriptV {
        PowerScriptV { location: self.location@, args: self.args.deep_view() }
    }
}

impl PowerScript {
    /// A field-by-field copy with the same value.
    pub fn duplicate(&self) -> (r: PowerScript)
        ensures
            r@ == self@,
    {
        let mut args: Vec<String> = Vec::new();
        let mut i: usize = 0;
        while i < self.args.len()
            invariant
                i <= self.args@.len(),
                args.deep_view() =~= self.args.deep_view().take(i as int),
            decreases self.args@.len() - i,
        {
            let ghost prev = args.deep_view();
            let ghost prev_vec = args@;
            proof {
                assert(prev.len() == i);
                assert(prev_vec.len() == i);
            }
            args.push(self.args[i].clone());
            proof {
                assert(args@ == prev_vec.push(args@[i as int]));
                assert forall|j: int| 0 <= j < i + 1 implies args.deep_view()[j]
                    == self.args.deep_view()[j] by {
                    if j < i {
                        assert(args@[j] == prev_vec[j]);
                        assert(prev[j] == self.args.deep_view().take(i as int)[j]);
                    } else {
                        assert(args@[j] == args@[i as int]);
                        assert(args@[j]@ == self.args@[i as int]@);
                    }
                }
                assert(args.deep_view() =~= self.args.deep_view().take(i as int + 1));
            }
            i = i + 1;
        }
        proof {
            assert(self.args.deep_view().take(self.args@.len() as int) =~= self.args.deep_view());
            assert(PowerScriptV { location: self.location@, args: args.deep_view() }
                == self@);
        }
        PowerScript { location: self.location.clone(), args }
    }
}

/// The mathematical value of an optional power script.
pub open spec fn script_option_view(o: Option<PowerScript>) -> Option<PowerScriptV> {
    match o {
        Option::None => Option::None,
        Option::Some(p) => Option::Some(p@),
    }
}

/// The fan section of the source document, before curve compilation.
#[derive(PartialEq, Debug)]
pub struct FanConfigYAML {
    pub interval: u64,
    pub hysteresis: Hysteresis,
    pub matrix: TempMatrixYAML,
}

/// The mathematical value of a `FanConfigYAML`.
pub struct FanConfigYAMLV {
    pub interval: u64,
    pub hysteresis: Hysteresis,
    pub matrix: Seq<ControlPoint>,
}

impl View for FanConfigYAML {
    type V = FanConfigYAMLV;

    open spec fn view(&self) -> FanConfigYAMLV {
        FanConfigYAMLV {
            interval: self.interval,
            hysteresis: self.hysteresis,
            matrix: self.matrix@,
        }
    }
}

/// The whole source document, validated but not yet compiled.
#[derive(PartialEq, Debug)]
pub struct ArgonConfigYAML {
    pub fan_config: FanConfigYAML,
    pub shutdown_script: Option<PowerScript>,
    pub reboot_script: Option<PowerScript>,
}

/// The mathematical value of an `ArgonConfigYAML`.
pub struct ArgonConfigYAMLV {
    pub fan_config: FanConfigYAMLV,
    pub shutdown_script: Option<PowerScriptV>,
    pub reboot_script: Option<PowerScriptV>,
}

impl View for ArgonConfigYAML {
    type V = ArgonConfigYAMLV;

    open spec fn view(&self) -> ArgonConfigYAMLV {
        ArgonConfigYAMLV {
            fan_config: self.fan_config@,
            shutdown_script: script_option_view(self.shutdown_script),
            reboot_script: script_option_view(self.reboot_script),
        }
    }
}

/// What the loader guarantees of a document it accepts: at least two
/// control points, every coordinate and the hysteresis amount within
/// 0..=100.
pub open spec fn wf_yaml(c: ArgonConfigYAMLV) -> bool {
    &&& c.fan_config.matrix.len() >= 2
    &&& wf_points(c.fan_config.matrix)
    &&& c.fan_config.hysteresis.amount <= 100
}

/// The fan section of a fully compiled document: the sparse matrix has
/// become a dense per-degree curve.
#[derive(PartialEq, Debug)]
pub struct FanConfigRKYV {
    pub interval: u64,
    pub hysteresis: Hysteresis,
    pub matrix: TemperatureCurve,
}

/// The mathematical value of a `FanConfigRKYV`.
pub struct FanConfigRKYVV {
    pub interval: u64,
    pub hysteresis: Hysteresis,
    pub table: Seq<u8>,
}

impl View for FanConfigRKYV {
    type V = FanConfigRKYVV;

    open spec fn view(&self) -> FanConfigRKYVV {
        FanConfigRKYVV {
            interval: self.interval,
            hysteresis: self.hysteresis,
            table: self.matrix.table@,
        }
    }
}

/// A fully compiled configuration document, ready for the daemons or
/// for the binary cache.
#[derive(PartialEq, Debug)]
pub struct ArgonConfigRKYV {
    pub fan_config: FanConfigRKYV,
    pub shutdown_script: Option<PowerScript>,
    pub reboot_script: Option<PowerScript>,
}

/// The mathematical value of an `ArgonConfigRKYV`.
pub struct ArgonConfigRKYVV {
    pub fan_config: FanConfigRKYVV,
    pub shutdown_script: Option<PowerScriptV>,
    pub reboot_script: Option<PowerScriptV>,
}

impl View for ArgonConfigRKYV {
    type V = ArgonConfigRKYVV;

    open spec fn view(&self) -> ArgonConfigRKYVV {
        ArgonConfigRKYVV {
            fan_config: self.fan_config@,
            shutdown_script: script_option_view(self.shutdown_script),
            reboot_script: script_option_view(self.reboot_script),
        }
    }
}

/// The invariant of a compiled document: a total curve with one valid
/// speed per degree and a hysteresis amount within range.
pub open spec fn wf_doc(d: ArgonConfigRKYVV) -> bool {
    &&& d.fan_config.table.len() == 101
    &&& forall|i: int| 0 <= i < 101 ==> #[trigger] d.fan_config.table[i] <= 100
    &&& d.fan_config.hysteresis.amount <= 100
}

/// The compiled document a validated source document gives rise to.
pub open spec fn build_doc_v(c: ArgonConfigYAMLV) -> ArgonConfigRKYVV {
    ArgonConfigRKYVV {
        fan_config: FanConfigRKYVV {
            interval: c.fan_config.interval,
            hysteresis: c.fan_config.hysteresis,
            table: Seq::new(101, |t: int| curve_value(c.fan_config.matrix, t) as u8),
        },
        shutdown_script: c.shutdown_script,
        reboot_script: c.reboot_script,
    }
}

/// Compiles a validated source document into the document the daemons
/// consume: the curve is expanded, everything else carries over.
pub fn build_document(c: ArgonConfigYAML) -> (d: ArgonConfigRKYV)
    requires
        wf_yaml(c@),
    ensures
        d@ == build_doc_v(c@),
        wf_doc(d@),
{
    let curve = matrix_mapper(&c.fan_config.matrix);
    let d = ArgonConfigRKYV {
        fan_config: FanConfigRKYV {
            interval: c.fan_config.interval,
            hysteresis: c.fan_config.hysteresis,
            matrix: curve,
        },
        shutdown_script: c.shutdown_script,
        reboot_script: c.reboot_script,
    };
    proof {
        assert(d.fan_config.matrix.table@ =~= Seq::new(
            101,
            |t: int| curve_value(c.fan_config.matrix@, t) as u8,
        ));
        assert(d@ == build_doc_v(c@));
    }
    d
}

/// The control points behind the built-in default curve.
pub open spec fn default_points() -> Seq<ControlPoint> {
    seq![
        ControlPoint { temperature: 55, speed: 10 },
        ControlPoint { temperature: 60, speed: 40 },
        ControlPoint { temperature: 65, speed: 100 },
    ]
}

/// The value of the built-in default fan configuration: a 10000 ms
/// interval, hysteresis of 4 degrees applied only on the way down, and
/// the curve compiled from the default control points.
pub open spec fn default_fan_v() -> FanConfigRKYVV {
    FanConfigRKYVV {
        interval: 10000u64,
        hysteresis: Hysteresis { amount: 4, only_way_down: true },
        table: Seq::new(101, |t: int| curve_value(default_points(), t) as u8),
    }
}

/// The value of the built-in default document: the default fan
/// configuration and no power scripts.
pub open spec fn default_doc_v() -> ArgonConfigRKYVV {
    ArgonConfigRKYVV {
        fan_config: default_fan_v(),
        shutdown_script: Option::None,
        reboot_script: Option::None,
    }
}

impl Default for FanConfigRKYV {
    /// Builds the built-in default fan configuration.
    fn default() -> (d: FanConfigRKYV)
        ensures
            d@ == default_fan_v(),
            d.matrix.wf(),
    {
        let points: TempMatrixYAML = vec![
            ControlPoint { temperature: 55, speed: 10 },
            ControlPoint { temperature: 60, speed: 40 },
            ControlPoint { temperature: 65, speed: 100 },
        ];
        proof {
            assert(points@ =~= default_points());
        }
        let curve = matrix_mapper(&points);
        proof {
            assert(curve.table@ =~= Seq::new(
                101,
                |t: int| curve_value(default_points(), t) as u8,
            ));
        }
        FanConfigRKYV {
            interval: 10000,
            hysteresis: Hysteresis { amount: 4, only_way_down: true },
            matrix: curve,
        }
    }
}

impl Default for ArgonConfigRKYV {
    /// Builds the built-in default document.
    fn default() -> (d: ArgonConfigRKYV)
        ensures
            d@ == default_doc_v(),
            wf_doc(d@),
    {
        ArgonConfigRKYV {
            fan_config: FanConfigRKYV::default(),
            shutdown_script: Option::None,
            reboot_script: Option::None,
        }
    }
}

/// A resolved configuration, tagged with its provenance: decoded from
/// the binary cache, or freshly built (from the source document or the
/// default). Consumers read the document through `document` and never
/// branch on the variant.
#[derive(PartialEq, Debug)]
pub enum ArgonConfigValue {
    Archived(ArgonConfigRKYV),
    NonArchived(ArgonConfigRKYV),
}

impl ArgonConfigValue {
    /// The document carried, whatever its provenance.
    pub open spec fn document_view(&self) -> ArgonConfigRKYVV {
        match self {
            ArgonConfigValue::Archived(d) => d@,
            ArgonConfigValue::NonArchived(d) => d@,
        }
    }

    /// Read-only access to the document, whatever its provenance.
    pub fn document(&self) -> (d: &ArgonConfigRKYV)
        ensures
            d@ == self.document_view(),
    {
        match self {
            ArgonConfigValue::Archived(d) => d,
            ArgonConfigValue::NonArchived(d) => d,
        }
    }
}

} // verus!
