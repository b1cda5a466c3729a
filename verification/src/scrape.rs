//! One scrape, step by step. The scrape says which command is to be run
//! next; the caller runs it and hands back what it printed. Whatever fails
//! ends the scrape, and nothing of it is sent.

use crate::config::ExportConfig;
use crate::error::Error;
use crate::metrics::{
    lemma_held_name_is_not_free, metric_names, metrics_described, refusal, shows, MetricSet,
};
use crate::output::{parse_output, parsed_output};
use crate::registry::{is_metric_name, name_id, Described, Metric};
use vstd::prelude::*;

verus! {

/// The names of `exports`, in their order.
pub open spec fn export_names(exports: Seq<ExportConfig>) -> Seq<Seq<char>> {
    Seq::new(exports.len(), |i: int| exports[i].name@)
}

/// Whether the output `raw` of the command of `export` makes a metric, with
/// the metrics called `earlier` in the set already: the output must report a
/// number, and the set must not refuse the metric.
pub open spec fn accepts(earlier: Seq<Seq<char>>, export: ExportConfig, raw: Seq<u8>) -> bool {
    parsed_output(raw) is Ok && refusal(earlier, export) is None
}

/// Whether each of `exports` can be made a metric beside the others: every
/// name can name a metric, every description says something, and no two
/// names are filed under one number, as no name is filed twice.
pub open spec fn can_be_scraped(exports: Seq<ExportConfig>) -> bool {
    &&& forall|i: int|
        0 <= i < exports.len() ==> is_metric_name((#[trigger] exports[i]).name@)
            && exports[i].description@.len() > 0
    &&& forall|i: int, j: int|
        0 <= i < j < exports.len() ==> name_id((#[trigger] exports[i]).name@) != name_id(
            (#[trigger] exports[j]).name@,
        )
}

/// What each of `exports` is exposed as, but for its value: under its name,
/// with its description for help text, as a metric of its kind.
pub open spec fn export_entries(exports: Seq<ExportConfig>) -> Seq<Described> {
    Seq::new(
        exports.len(),
        |i: int|
            Described {
                name: exports[i].name@,
                help: exports[i].description@,
                kind: exports[i].kind,
            },
    )
}

/// Whether `text` lists the metrics of `exports` and nothing else: for each
/// export in turn the lines for its description, its kind and its value.
pub open spec fn lists_exports(text: Seq<char>, exports: Seq<ExportConfig>) -> bool {
    shows(text, export_entries(exports))
}

/// A scrape between two commands.
pub struct Scrape {
    exports: Vec<ExportConfig>,
    position: usize,
    metrics: MetricSet,
}

/// A scrape that waits for the output of a command.
pub struct Pending {
    scrape: Scrape,
}

/// A metric that is in the set and waits for its value, and the text of the
/// number that the command reported for it.
pub struct Sample {
    pub metric: Metric,
    pub text: String,
}

/// What a scrape comes to next.
pub enum Step {
    /// A command is to be run.
    Run(Pending),
    /// Every command has been run. Holds the text to send.
    Finished(String),
    /// The metrics could not be encoded. A scrape does not come to this as
    /// long as the Prometheus library encodes every counter and gauge that
    /// has a name.
    Failed(Error),
}

impl Scrape {
    /// The exports of the scrape.
    pub closed spec fn exports(&self) -> Seq<ExportConfig> {
        self.exports@
    }

    /// How many of the exports have been turned into metrics.
    pub closed spec fn position(&self) -> int {
        self.position as int
    }

    /// The metrics made so far, in the order in which they were made.
    pub closed spec fn metrics(&self) -> Seq<Metric> {
        self.metrics@
    }

    /// The names of the metrics made so far.
    pub open spec fn names(&self) -> Seq<Seq<char>> {
        metric_names(self.metrics())
    }

    /// What holds of a scrape at every step: the metrics made so far are
    /// those of the exports gone through, one for each, in their order.
    #[verifier::type_invariant]
    closed spec fn wf(&self) -> bool {
        &&& self.position <= self.exports@.len()
        &&& metrics_described(self.metrics@) == export_entries(
            self.exports@.take(self.position as int),
        )
    }

    /// A scrape of `exports` that has not run any command yet. It starts
    /// without metrics, whatever was scraped before.
    pub fn new(exports: Vec<ExportConfig>) -> (scrape: Scrape)
        ensures
            scrape.exports() == exports@,
            scrape.position() == 0,
            scrape.metrics() == Seq::<Metric>::empty(),
    {
        let metrics = MetricSet::new();
        assert(export_entries(exports@.take(0)) =~= metrics_described(metrics@));
        Scrape { exports, position: 0, metrics }
    }

    /// The next step: the command of the first export that has not been
    /// gone through, or, when there is none left, the end of the scrape.
    /// A scrape that has gone through its exports always ends with a text,
    /// which lists the metrics of the exports and nothing else, in the order
    /// of the exports.
    pub fn next_step(self) -> (step: Step)
        ensures
            match step {
                Step::Run(pending) => {
                    &&& self.position() < self.exports().len()
                    &&& pending.exports() == self.exports()
                    &&& pending.position() == self.position()
                    &&& pending.metrics() == self.metrics()
                },
                Step::Finished(text) => {
                    &&& self.position() == self.exports().len()
                    &&& lists_exports(text@, self.exports())
                },
                Step::Failed(_) => false,
            },
    {
        proof {
            use_type_invariant(&self);
        }
        if self.position < self.exports.len() {
            Step::Run(Pending { scrape: self })
        } else {
            assert(self.exports@.take(self.position as int) =~= self.exports@);
            match self.metrics.encode() {
                Ok(text) => Step::Finished(text),
                Err(error) => Step::Failed(error),
            }
        }
    }

    /// Tells how many of the exports have been turned into metrics. At every
    /// step the metrics made so far are those of the exports gone through,
    /// one for each, in their order.
    pub fn progress(&self) -> (done: usize)
        ensures
            done == self.position(),
            done <= self.exports().len(),
            metrics_described(self.metrics()) == export_entries(
                self.exports().take(done as int),
            ),
            self.names() == export_names(self.exports().take(done as int)),
    {
        proof {
            use_type_invariant(self);
            lemma_names_of_entries(self.metrics@, self.exports@.take(self.position as int));
        }
        self.position
    }
}

/// Metrics that are exposed as exports are, have the names of the exports.
pub proof fn lemma_names_of_entries(metrics: Seq<Metric>, exports: Seq<ExportConfig>)
    requires
        metrics_described(metrics) == export_entries(exports),
    ensures
        metric_names(metrics) == export_names(exports),
{
    assert(metrics_described(metrics).len() == metrics.len());
    assert(export_entries(exports).len() == exports.len());
    assert forall|i: int| 0 <= i < metrics.len() implies metrics[i].name() == exports[i].name@ by {
        assert(metrics_described(metrics)[i] == export_entries(exports)[i]);
        assert(metrics_described(metrics)[i].name == metrics[i].name());
        assert(export_entries(exports)[i].name == exports[i].name@);
    }
    assert(metric_names(metrics) =~= export_names(exports));
}

impl Pending {
    /// The exports of the scrape.
    pub closed spec fn exports(&self) -> Seq<ExportConfig> {
        self.scrape.exports()
    }

    /// The place among the exports of the one whose command is to be run.
    pub closed spec fn position(&self) -> int {
        self.scrape.position()
    }

    /// The metrics made so far.
    pub closed spec fn metrics(&self) -> Seq<Metric> {
        self.scrape.metrics()
    }

    /// The names of the metrics made so far: those of the exports gone
    /// through.
    pub open spec fn names(&self) -> Seq<Seq<char>> {
        metric_names(self.metrics())
    }

    /// What holds of every scrape that waits: it has an export left.
    #[verifier::type_invariant]
    closed spec fn wf(&self) -> bool {
        self.scrape.position < self.scrape.exports@.len()
    }

    /// The export whose command is to be run.
    pub open spec fn export(&self) -> ExportConfig {
        self.exports()[self.position()]
    }

    /// The command that is to be run, as `sh -c` takes it. The metrics made
    /// so far are those of the exports in front of the one whose command it
    /// is.
    pub fn command(&self) -> (command: &str)
        ensures
            0 <= self.position() < self.exports().len(),
            command@ == self.export().command@,
            self.names() == export_names(self.exports().take(self.position())),
    {
        proof {
            use_type_invariant(self);
            use_type_invariant(&self.scrape);
            lemma_names_of_entries(
                self.scrape.metrics@,
                self.scrape.exports@.take(self.scrape.position as int),
            );
        }
        self.scrape.exports[self.scrape.position].command.as_str()
    }

    /// Ends the scrape because the command could not be run or its output
    /// could not be read. `reason` holds the operating system's words.
    pub fn abandon(self, reason: String) -> (error: Error)
        ensures
            error == Error::Io(reason),
    {
        Error::Io(reason)
    }

    /// Takes what the command printed. Where it reports a number and the
    /// export makes a metric that the set has room for, the scrape goes on
    /// with the next export, and the metric comes back with the text of the
    /// number, for the caller to set its value. The metric that comes back
    /// is the one that the scrape holds, under the name, the description and
    /// the kind of the export. Anything else ends the
    /// scrape: output that cannot be read with the error of
    /// [`parse_output`], a metric that is refused with the words of
    /// [`refusal`].
    pub fn accept_output(self, raw: Vec<u8>) -> (accepted: Result<(Scrape, Sample), Error>)
        ensures
            accepted is Ok <==> accepts(self.names(), self.export(), raw@),
            match accepted {
                Ok((scrape, sample)) => {
                    &&& scrape.exports() == self.exports()
                    &&& scrape.position() == self.position() + 1
                    &&& scrape.metrics() == self.metrics().push(sample.metric)
                    &&& parsed_output(raw@) == Ok::<Seq<char>, Error>(sample.text@)
                    &&& sample.metric.made_with() == Some(
                        (self.export().name@, self.export().description@),
                    )
                    &&& sample.metric.kind() == self.export().kind
                },
                Err(error) => match parsed_output(raw@) {
                    Ok(_) => {
                        &&& error is PrometheusLibrary
                        &&& refusal(self.names(), self.export()) == Some(
                            error->PrometheusLibrary_0@,
                        )
                    },
                    Err(reason) => error == reason,
                },
            },
    {
        let text = match parse_output(raw) {
            Ok(text) => text,
            Err(error) => {
                return Err(error);
            },
        };
        proof {
            use_type_invariant(&self);
            use_type_invariant(&self.scrape);
        }
        let ghost before = self.scrape;
        let Pending { scrape } = self;
        let Scrape { exports, position, metrics } = scrape;
        assert(position < exports.len());
        let (metrics, added) = metrics.add(&exports[position]);
        match added {
            Ok(metric) => {
                proof {
                    let done = before.exports@.take(before.position as int);
                    let more = before.exports@.take(before.position + 1);
                    assert(export_entries(more) =~= export_entries(done).push(
                        metric.described(),
                    ));
                    assert(metrics_described(metrics@) =~= metrics_described(
                        before.metrics@,
                    ).push(metric.described()));
                }
                Ok((Scrape { exports, position: position + 1, metrics }, Sample { metric, text }))
            },
            Err(error) => Err(error),
        }
    }
}

/// Of two exports of one name the second is refused, whichever of the two
/// comes first, and makes no metric whatever its command prints.
pub proof fn lemma_second_of_a_name_is_refused(
    exports: Seq<ExportConfig>,
    first: int,
    second: int,
    raw: Seq<u8>,
)
    requires
        0 <= first < second < exports.len(),
        exports[first].name@ == exports[second].name@,
    ensures
        refusal(export_names(exports.take(second)), exports[second]) is Some,
        !accepts(export_names(exports.take(second)), exports[second], raw),
{
    let earlier = export_names(exports.take(second));
    assert(earlier[first] == exports[second].name@);
    assert(earlier.to_set().contains(exports[second].name@));
    lemma_held_name_is_not_free(earlier, exports[second].name@);
}

/// Where the exports can be scraped, each of them makes a metric as soon as
/// its command reports a number: with such exports a scrape fails on a
/// command's output or not at all before the metrics are encoded.
pub proof fn lemma_exports_that_can_be_scraped_are_accepted(
    exports: Seq<ExportConfig>,
    place: int,
    raw: Seq<u8>,
)
    requires
        can_be_scraped(exports),
        0 <= place < exports.len(),
        parsed_output(raw) is Ok,
    ensures
        accepts(export_names(exports.take(place)), exports[place], raw),
{
    let earlier = export_names(exports.take(place));
    assert forall|other: Seq<char>| #[trigger] earlier.to_set().contains(other) implies name_id(
        other,
    ) != name_id(exports[place].name@) by {
        let i = choose|i: int| 0 <= i < earlier.len() && earlier[i] == other;
        assert(earlier[i] == exports[i].name@);
    }
}

} // verus!
