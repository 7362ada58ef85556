//! The metrics a comparison can be run with, and the scoring tool of each.

use vstd::prelude::*;

verus! {

/// A supported metric. Each is computed by a scoring tool of its own.
#[derive(Clone, Copy, Debug, PartialEq, Eq, Structural)]
pub enum Metric {
    Butteraugli,
    Ssimulacra,
    Ssimulacra2,
}

impl Metric {
    /// The subcommand that selects the metric.
    pub open spec fn spec_subcommand(self) -> Seq<char> {
        match self {
            Metric::Butteraugli => "butter"@,
            Metric::Ssimulacra => "ssimulacra"@,
            Metric::Ssimulacra2 => "ssimulacra2"@,
        }
    }

    /// The environment variable that overrides the tool of the metric.
    pub open spec fn spec_path_variable(self) -> Seq<char> {
        match self {
            Metric::Butteraugli => "BUTTERAUGLI_PATH"@,
            Metric::Ssimulacra => "SSIMULACRA_PATH"@,
            Metric::Ssimulacra2 => "SSIMULACRA2_PATH"@,
        }
    }

    /// The name the tool of the metric is looked up by when nothing else is
    /// configured.
    pub open spec fn spec_default_command(self) -> Seq<char> {
        match self {
            Metric::Butteraugli => "butteraugli"@,
            Metric::Ssimulacra => "ssimulacra"@,
            Metric::Ssimulacra2 => "ssimulacra2"@,
        }
    }

    /// The metric a subcommand selects, if it selects one.
    pub open spec fn spec_from_subcommand(name: Seq<char>) -> Option<Metric> {
        if name == "butter"@ {
            Some(Metric::Butteraugli)
        } else if name == "ssimulacra"@ {
            Some(Metric::Ssimulacra)
        } else if name == "ssimulacra2"@ {
            Some(Metric::Ssimulacra2)
        } else {
            None
        }
    }

    /// The command that runs the tool of the metric: the configured one, or
    /// the default where none is configured.
    pub open spec fn spec_command(self, configured: Option<Seq<char>>) -> Seq<char> {
        match configured {
            Some(command) => command,
            None => self.spec_default_command(),
        }
    }

    /// The subcommand that selects the metric.
    pub fn subcommand(self) -> (name: &'static str)
        ensures
            name@ == self.spec_subcommand(),
    {
        match self {
            Metric::Butteraugli => "butter",
            Metric::Ssimulacra => "ssimulacra",
            Metric::Ssimulacra2 => "ssimulacra2",
        }
    }

    /// The environment variable that overrides the tool of the metric.
    pub fn path_variable(self) -> (name: &'static str)
        ensures
            name@ == self.spec_path_variable(),
    {
        match self {
            Metric::Butteraugli => "BUTTERAUGLI_PATH",
            Metric::Ssimulacra => "SSIMULACRA_PATH",
            Metric::Ssimulacra2 => "SSIMULACRA2_PATH",
        }
    }

    /// The name the tool of the metric is looked up by when nothing else is
    /// configured.
    pub fn default_command(self) -> (name: &'static str)
        ensures
            name@ == self.spec_default_command(),
    {
        match self {
            Metric::Butteraugli => "butteraugli",
            Metric::Ssimulacra => "ssimulacra",
            Metric::Ssimulacra2 => "ssimulacra2",
        }
    }

    /// The metric a subcommand selects, if it selects one.
    pub fn from_subcommand(name: &str) -> (metric: Option<Metric>)
        ensures
            metric == Self::spec_from_subcommand(name@),
    {
        let name = name.to_owned();
        if name == "butter".to_owned() {
            Some(Metric::Butteraugli)
        } else if name == "ssimulacra".to_owned() {
            Some(Metric::Ssimulacra)
        } else if name == "ssimulacra2".to_owned() {
            Some(Metric::Ssimulacra2)
        } else {
            None
        }
    }

    /// The command that runs the tool of the metric: the configured one, or
    /// the default where none is configured.
    pub fn command(self, configured: Option<String>) -> (command: String)
        ensures
            command@ == self.spec_command(
                match configured {
                    Some(path) => Some(path@),
                    None => None,
                },
            ),
    {
        match configured {
            Some(path) => path,
            None => self.default_command().to_owned(),
        }
    }
}

/// Every metric is selected by its own subcommand and by no other.
pub proof fn lemma_subcommand_selects(metric: Metric)
    ensures
        Metric::spec_from_subcommand(metric.spec_subcommand()) == Some(metric),
{
    reveal_strlit("butter");
    reveal_strlit("ssimulacra");
    reveal_strlit("ssimulacra2");
    assert("butter"@.len() == 6);
    assert("ssimulacra"@.len() == 10);
    assert("ssimulacra2"@.len() == 11);
}

} // verus!
