//! The export definitions an operator configures.

use vstd::prelude::*;

verus! {

/// The directory the configuration is looked up in by default.
pub const DEFAULT_PATH: &'static str = "/etc/prometheus-command-exporter/";

/// The file name of the configuration inside [`DEFAULT_PATH`].
pub const DEFAULT_CONFIG_FILE: &'static str = "config.yml";

/// The kind of metric an export produces.
#[derive(Clone, Copy, Debug, PartialEq, Eq, Structural)]
pub enum PrometheusType {
    Counter,
    Gauge,
}

/// One export: a metric and the shell command whose output is its value.
#[derive(Clone, Debug)]
pub struct ExportConfig {
    /// The metric's name.
    pub name: String,
    /// The metric's help text.
    pub description: String,
    /// Whether the metric is a counter or a gauge.
    pub kind: PrometheusType,
    /// The command, handed to `sh -c` as it is.
    pub command: String,
}

/// The exports of one exporter, in the order in which they are scraped.
#[derive(Clone, Debug)]
pub struct Config {
    pub exports: Vec<ExportConfig>,
}

impl ExportConfig {
    /// Whether this export is the sample export of a fresh configuration.
    pub open spec fn is_sample(&self) -> bool {
        &&& self.name@ == "random_number"@
        &&& self.description@ == "A random number"@
        &&& self.kind == PrometheusType::Gauge
        &&& self.command@ == "sh -c \"echo $RANDOM\" 2>&1"@
    }
}

impl Default for ExportConfig {
    /// The sample export: a gauge fed by the shell's `$RANDOM`.
    fn default() -> (export: ExportConfig)
        ensures
            export.is_sample(),
    {
        ExportConfig {
            name: "random_number".to_owned(),
            description: "A random number".to_owned(),
            kind: PrometheusType::Gauge,
            command: "sh -c \"echo $RANDOM\" 2>&1".to_owned(),
        }
    }
}

impl Default for Config {
    /// The configuration written where none exists: the sample export alone.
    fn default() -> (config: Config)
        ensures
            config.exports@.len() == 1,
            config.exports@[0].is_sample(),
    {
        let mut exports: Vec<ExportConfig> = Vec::new();
        exports.push(ExportConfig::default());
        Config { exports }
    }
}

} // verus!
