//! The Prometheus library as this crate uses it: the types it hands around,
//! and for each of its functions that is called what is taken for granted of
//! it.

use crate::config::PrometheusType;
use vstd::prelude::*;
use vstd::utf8::encode_utf8;

verus! {

/// A registry of the Prometheus library.
#[verifier::external_type_specification]
#[verifier::external_body]
pub struct ExRegistry(prometheus::Registry);

/// One metric as the Prometheus library collects it from a registry: its
/// name, help text and kind, and its samples.
#[verifier::external_type_specification]
#[verifier::external_body]
pub struct ExMetricFamily(prometheus::proto::MetricFamily);

/// A counter of the Prometheus library. Its value is the caller's to set.
#[verifier::external_body]
pub struct CounterHandle {
    pub counter: prometheus::Counter,
}

/// A gauge of the Prometheus library. Its value is the caller's to set.
#[verifier::external_body]
pub struct GaugeHandle {
    pub gauge: prometheus::Gauge,
}

/// Whether `c` may start a metric's name: a letter of the Latin alphabet, an
/// underscore or a colon.
pub open spec fn is_name_start(c: char) -> bool {
    let code = c as u32;
    ||| 0x41 <= code <= 0x5A
    ||| 0x61 <= code <= 0x7A
    ||| c == '_'
    ||| c == ':'
}

/// Whether `c` may stand inside a metric's name: what may start one, or a
/// digit.
pub open spec fn is_name_part(c: char) -> bool {
    is_name_start(c) || 0x30 <= c as u32 <= 0x39
}

/// Whether `name` can name a metric.
pub open spec fn is_metric_name(name: Seq<char>) -> bool {
    &&& name.len() > 0
    &&& is_name_start(name[0])
    &&& forall|i: int| 0 < i < name.len() ==> is_name_part(#[trigger] name[i])
}

/// The words in which the Prometheus library refuses to make a metric called
/// `name` with the help text `help`: it looks at the help text first.
pub open spec fn refusal_to_make(name: Seq<char>, help: Seq<char>) -> Seq<char> {
    if help.len() == 0 {
        "Error: empty help string"@
    } else {
        "Error: '"@ + name + "' is not a valid metric name"@
    }
}

/// The words in which a registry refuses a metric.
pub open spec fn refusal_to_register() -> Seq<char> {
    "Duplicate metrics collector registration attempted"@
}

/// The name and the help text `counter` was made with, where it was made
/// from these two alone, without labels; nothing for any other counter.
pub uninterp spec fn counter_made_with(counter: CounterHandle) -> Option<(Seq<char>, Seq<char>)>;

/// The name and the help text `gauge` was made with, where it was made from
/// these two alone, without labels; nothing for any other gauge.
pub uninterp spec fn gauge_made_with(gauge: GaugeHandle) -> Option<(Seq<char>, Seq<char>)>;

/// `Counter::new` makes a counter of the given name and help text, with no
/// labels. It
/// refuses an empty help text and a name that cannot name a metric, and
/// nothing else. Its error is handed on in the library's own words, which
/// are those of [`refusal_to_make`].
#[verifier::external_body]
pub(crate) fn new_counter(name: &str, help: &str) -> (made: Result<CounterHandle, String>)
    ensures
        made is Ok <==> (is_metric_name(name@) && help@.len() > 0),
        made is Ok ==> counter_made_with(made->Ok_0) == Some((name@, help@)),
        made is Err ==> made->Err_0@ == refusal_to_make(name@, help@),
{
    match prometheus::Counter::new(name, help) {
        Ok(counter) => Ok(CounterHandle { counter }),
        Err(error) => Err(error.to_string()),
    }
}

/// `Gauge::new` makes a gauge of the given name and help text, with no
/// labels. It refuses
/// an empty help text and a name that cannot name a metric, and nothing
/// else. Its error is handed on in the library's own words, which are those
/// of [`refusal_to_make`].
#[verifier::external_body]
pub(crate) fn new_gauge(name: &str, help: &str) -> (made: Result<GaugeHandle, String>)
    ensures
        made is Ok <==> (is_metric_name(name@) && help@.len() > 0),
        made is Ok ==> gauge_made_with(made->Ok_0) == Some((name@, help@)),
        made is Err ==> made->Err_0@ == refusal_to_make(name@, help@),
{
    match prometheus::Gauge::new(name, help) {
        Ok(gauge) => Ok(GaugeHandle { gauge }),
        Err(error) => Err(error.to_string()),
    }
}

/// A metric that has been made and waits for its value.
pub enum Metric {
    Counter(CounterHandle),
    Gauge(GaugeHandle),
}

/// What a metric is exposed as, but for its value.
pub struct Described {
    pub name: Seq<char>,
    pub help: Seq<char>,
    pub kind: PrometheusType,
}

impl Metric {
    /// The name and the help text the metric was made with, where it was
    /// made from these two alone.
    pub open spec fn made_with(&self) -> Option<(Seq<char>, Seq<char>)> {
        match self {
            Metric::Counter(handle) => counter_made_with(*handle),
            Metric::Gauge(handle) => gauge_made_with(*handle),
        }
    }

    /// The name the metric was made with.
    pub open spec fn name(&self) -> Seq<char> {
        (self.made_with()->0).0
    }

    /// The help text the metric was made with.
    pub open spec fn help(&self) -> Seq<char> {
        (self.made_with()->0).1
    }

    /// Whether the metric is a counter or a gauge.
    pub open spec fn kind(&self) -> PrometheusType {
        match self {
            Metric::Counter(_) => PrometheusType::Counter,
            Metric::Gauge(_) => PrometheusType::Gauge,
        }
    }

    /// What the metric is exposed as, but for its value.
    pub open spec fn described(&self) -> Described {
        Described { name: self.name(), help: self.help(), kind: self.kind() }
    }
}

/// The metrics that `registry` holds, each under its name.
pub uninterp spec fn registered(registry: prometheus::Registry) -> Map<Seq<char>, Metric>;

/// Whether `registry` was made without a prefix and without labels of its
/// own, and has been offered nothing but counters and gauges that were made
/// from a name and a help text alone.
pub uninterp spec fn is_plain(registry: prometheus::Registry) -> bool;

/// The hash of `bytes` that goes on from `hash`: for each byte in turn the
/// hash is combined with the byte, bit by bit, and multiplied by a prime.
pub open spec fn hashed(hash: u64, bytes: Seq<u8>) -> u64
    decreases bytes.len(),
{
    if bytes.len() == 0 {
        hash
    } else {
        hashed((hash ^ (bytes[0] as u64)).wrapping_mul(0x100000001b3), bytes.drop_first())
    }
}

/// The number under which a registry files a metric without labels: the
/// hash of the bytes of its name and of one byte that ends the name.
pub open spec fn name_id(name: Seq<char>) -> u64 {
    hashed(0xcbf29ce484222325, encode_utf8(name).push(0xFF))
}

/// Tells the number under which a registry files a metric called `name`.
pub fn name_id_of(name: &str) -> (id: u64)
    ensures
        id == name_id(name@),
{
    let bytes = name.as_bytes();
    let mut hash: u64 = 0xcbf29ce484222325;
    let mut i: usize = 0;
    assert(bytes@.skip(0) =~= bytes@);
    while i < bytes.len()
        invariant
            i <= bytes.len(),
            bytes@ == encode_utf8(name@),
            name_id(name@) == hashed(hash, bytes@.skip(i as int).push(0xFF)),
        decreases bytes.len() - i,
    {
        proof {
            let rest = bytes@.skip(i as int).push(0xFF);
            assert(rest[0] == bytes@[i as int]);
            assert(rest.drop_first() =~= bytes@.skip(i + 1).push(0xFF));
        }
        hash = (hash ^ (bytes[i] as u64)).wrapping_mul(0x100000001b3);
        i += 1;
    }
    proof {
        let rest = bytes@.skip(i as int).push(0xFF);
        assert(rest =~= seq![0xFFu8]);
        assert(rest.drop_first() =~= Seq::<u8>::empty());
        reveal_with_fuel(hashed, 2);
    }
    (hash ^ 0xFF).wrapping_mul(0x100000001b3)
}

/// Whether a registry that holds metrics called `names` has room for a
/// metric called `name`: none of them is filed under the same number.
pub open spec fn is_free(names: Set<Seq<char>>, name: Seq<char>) -> bool {
    forall|other: Seq<char>| #[trigger] names.contains(other) ==> name_id(other) != name_id(name)
}

/// The name of `family`.
pub uninterp spec fn family_name(family: prometheus::proto::MetricFamily) -> Seq<char>;

/// The help text of `family`.
pub uninterp spec fn family_help(family: prometheus::proto::MetricFamily) -> Seq<char>;

/// Whether `family` is that of a counter.
pub uninterp spec fn is_counter_family(family: prometheus::proto::MetricFamily) -> bool;

/// Whether `family` is that of a counter or of a gauge and holds one sample,
/// which has neither labels nor a time stamp.
pub uninterp spec fn is_single(family: prometheus::proto::MetricFamily) -> bool;

/// The value of the first sample of `family`, as a floating-point number is
/// written out.
pub uninterp spec fn value_text(family: prometheus::proto::MetricFamily) -> Seq<char>;

/// What `c` is written as in a help text: a backslash and a line feed are
/// written with a backslash in front, the line feed as the letter `n`.
pub open spec fn escaped_char(c: char) -> Seq<char> {
    if c == '\\' {
        seq!['\\', '\\']
    } else if c == '\n' {
        seq!['\\', 'n']
    } else {
        seq![c]
    }
}

/// What `help` is written as in the exposition.
pub open spec fn escaped(help: Seq<char>) -> Seq<char>
    decreases help.len(),
{
    if help.len() == 0 {
        Seq::empty()
    } else {
        escaped(help.drop_last()) + escaped_char(help.last())
    }
}

impl Described {
    /// The word for the kind.
    pub open spec fn kind_word(self) -> Seq<char> {
        match self.kind {
            PrometheusType::Counter => "counter"@,
            PrometheusType::Gauge => "gauge"@,
        }
    }

    /// The line with the help text, which is left out where there is none.
    pub open spec fn help_line(self) -> Seq<char> {
        if self.help.len() == 0 {
            Seq::empty()
        } else {
            "# HELP "@ + self.name + " "@ + escaped(self.help) + "\n"@
        }
    }

    /// The line with the kind.
    pub open spec fn type_line(self) -> Seq<char> {
        "# TYPE "@ + self.name + " "@ + self.kind_word() + "\n"@
    }

    /// The line with the value, given as it is written out.
    pub open spec fn value_line(self, value: Seq<char>) -> Seq<char> {
        self.name + " "@ + value + "\n"@
    }

    /// The lines of a metric with one sample: help, kind and value.
    pub open spec fn lines(self, value: Seq<char>) -> Seq<char> {
        self.help_line() + self.type_line() + self.value_line(value)
    }
}

/// The lines of the metrics `metrics` with the values `values`, metric after
/// metric.
pub open spec fn body(metrics: Seq<Described>, values: Seq<Seq<char>>) -> Seq<char>
    decreases metrics.len(),
{
    if metrics.len() == 0 {
        Seq::empty()
    } else {
        body(metrics.drop_last(), values.drop_last()) + metrics.last().lines(values.last())
    }
}

/// What `family` is exposed as, but for its value.
pub open spec fn family_described(family: prometheus::proto::MetricFamily) -> Described {
    Described {
        name: family_name(family),
        help: family_help(family),
        kind: if is_counter_family(family) {
            PrometheusType::Counter
        } else {
            PrometheusType::Gauge
        },
    }
}

/// What each of `families` is exposed as, but for its value.
pub open spec fn families_described(families: Seq<prometheus::proto::MetricFamily>) -> Seq<
    Described,
> {
    Seq::new(families.len(), |i: int| family_described(families[i]))
}

/// The values of `families`, as they are written out.
pub open spec fn family_values(families: Seq<prometheus::proto::MetricFamily>) -> Seq<Seq<char>> {
    Seq::new(families.len(), |i: int| value_text(families[i]))
}

/// The text exposition of families with one sample each: the lines of
/// each, family after family.
pub open spec fn exposition(families: Seq<prometheus::proto::MetricFamily>) -> Seq<char> {
    body(families_described(families), family_values(families))
}

/// Whether the Prometheus library encodes `families`, which have one sample
/// each: every family must have a name.
pub open spec fn can_be_encoded(families: Seq<prometheus::proto::MetricFamily>) -> bool {
    forall|i: int| 0 <= i < families.len() ==> family_name(#[trigger] families[i]).len() > 0
}

/// `Registry::new` makes a registry that holds nothing, with no prefix and
/// no labels of its own.
pub assume_specification[ prometheus::Registry::new ]() -> (registry: prometheus::Registry)
    ensures
        is_plain(registry),
        registered(registry).dom() == Set::<Seq<char>>::empty(),
;

/// `Registry::register` takes a metric unless one that the registry holds is
/// filed under the same number; a metric of the same name always is. The
/// registry then holds the metric that was offered: whatever value the
/// caller gives it is the value that the registry reports. A metric that is
/// refused leaves the registry as it was. The error is handed on in the
/// library's own words, which are those of [`refusal_to_register`]. The
/// registry comes back with the outcome.
#[verifier::external_body]
pub(crate) fn register(registry: prometheus::Registry, metric: &Metric) -> (done: (
    prometheus::Registry,
    Result<(), String>,
))
    requires
        is_plain(registry),
        metric.made_with() is Some,
    ensures
        is_plain(done.0),
        done.1 is Ok <==> (forall|other: Seq<char>| #[trigger]
            registered(registry).dom().contains(other) ==> name_id(other) != name_id(
                metric.name(),
            )),
        done.1 is Ok ==> registered(done.0) == registered(registry).insert(metric.name(), *metric),
        done.1 is Err ==> registered(done.0) == registered(registry),
        done.1 is Err ==> done.1->Err_0@ == refusal_to_register(),
{
    let outcome = match metric {
        Metric::Counter(handle) => registry.register(Box::new(handle.counter.clone())),
        Metric::Gauge(handle) => registry.register(Box::new(handle.gauge.clone())),
    };
    match outcome {
        Ok(()) => (registry, Ok(())),
        Err(error) => (registry, Err(error.to_string())),
    }
}

/// `Registry::gather` gives one family for each metric that the registry
/// holds, and no two of the same name. The family has the metric's name,
/// help text and kind, and one sample, with the metric's value and with
/// neither labels nor a time stamp. A value is never written as the empty
/// text.
pub assume_specification[ prometheus::Registry::gather ](registry: &prometheus::Registry) -> (families: Vec<prometheus::proto::MetricFamily>)
    requires
        is_plain(*registry),
    ensures
        forall|i: int|
            0 <= i < families@.len() ==> registered(*registry).dom().contains(
                family_name(#[trigger] families@[i]),
            ),
        forall|i: int|
            0 <= i < families@.len() ==> is_single(#[trigger] families@[i]) && value_text(
                families@[i],
            ).len() > 0,
        forall|i: int|
            0 <= i < families@.len() ==> family_help(#[trigger] families@[i]) == registered(
                *registry,
            )[family_name(families@[i])].help(),
        forall|i: int|
            0 <= i < families@.len() ==> (is_counter_family(#[trigger] families@[i]) <==> registered(
                *registry,
            )[family_name(families@[i])] is Counter),
        forall|name: Seq<char>| #[trigger]
            registered(*registry).dom().contains(name) ==> exists|i: int|
                0 <= i < families@.len() && family_name(#[trigger] families@[i]) == name,
        forall|i: int, j: int|
            0 <= i < j < families@.len() ==> family_name(#[trigger] families@[i]) != family_name(
                #[trigger] families@[j],
            ),
;

/// `MetricFamily::get_name` gives the family's name.
pub assume_specification[ prometheus::proto::MetricFamily::get_name ](
    family: &prometheus::proto::MetricFamily,
) -> (name: &str)
    ensures
        name@ == family_name(*family),
;

/// Cloning a family gives a family that is the same in everything.
pub assume_specification[ <prometheus::proto::MetricFamily as Clone>::clone ](
    family: &prometheus::proto::MetricFamily,
) -> (copy: prometheus::proto::MetricFamily)
    ensures
        copy == *family,
;

/// `TextEncoder::encode` writes the lines of each family, in the order in
/// which the families are given, as UTF-8. Of families with one sample each
/// it refuses only one without a name. The error is handed on in the
/// library's own words. It is not called on a family of any other kind.
#[verifier::external_body]
pub(crate) fn encode(families: &Vec<prometheus::proto::MetricFamily>) -> (encoded: Result<Vec<u8>, String>)
    requires
        forall|i: int| 0 <= i < families@.len() ==> is_single(#[trigger] families@[i]),
    ensures
        encoded is Ok <==> can_be_encoded(families@),
        encoded is Ok ==> encoded->Ok_0@ == encode_utf8(exposition(families@)),
{
    let mut buffer: Vec<u8> = Vec::new();
    match prometheus::Encoder::encode(&prometheus::TextEncoder::new(), families, &mut buffer) {
        Ok(()) => Ok(buffer),
        Err(error) => Err(error.to_string()),
    }
}

} // verus!
