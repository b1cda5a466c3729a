//! The metrics of one scrape: made from the export definitions, registered
//! under names that differ, and encoded in the order in which they came.

use crate::config::{ExportConfig, PrometheusType};
use crate::error::Error;
use crate::registry::{
    body, can_be_encoded, encode, exposition, families_described, family_name, family_values,
    is_free, is_metric_name, is_plain, is_single, new_counter, new_gauge, refusal_to_make,
    refusal_to_register, register, registered, Described, Metric,
};
use crate::registry::family_described;
use prometheus::proto::MetricFamily;
use vstd::prelude::*;
use vstd::utf8::{decode_utf8, encode_utf8, valid_utf8};

verus! {

/// The texts of `strings`, in their order.
pub open spec fn texts(strings: Seq<String>) -> Seq<Seq<char>> {
    Seq::new(strings.len(), |i: int| strings[i]@)
}

/// The names of `families`, in their order.
pub open spec fn family_names(families: Seq<MetricFamily>) -> Seq<Seq<char>> {
    Seq::new(families.len(), |i: int| family_name(families[i]))
}

/// The place of the first family in `families` that is called `name`, or
/// the length of `families` where none is.
pub open spec fn place_of(families: Seq<MetricFamily>, name: Seq<char>) -> int
    decreases families.len(),
{
    if families.len() == 0 {
        0
    } else if family_name(families[0]) == name {
        0
    } else {
        1 + place_of(families.drop_first(), name)
    }
}

/// The families in the order of `names`: for each name in turn the first
/// family of that name, and nothing for a name that no family has.
pub open spec fn arranged(names: Seq<Seq<char>>, families: Seq<MetricFamily>) -> Seq<
    MetricFamily,
>
    decreases names.len(),
{
    if names.len() == 0 {
        Seq::empty()
    } else {
        let before = arranged(names.drop_last(), families);
        let place = place_of(families, names.last());
        if place < families.len() {
            before.push(families[place])
        } else {
            before
        }
    }
}

/// Whether one of `families` is called `name`.
pub open spec fn has_family(families: Seq<MetricFamily>, name: Seq<char>) -> bool {
    exists|i: int| 0 <= i < families.len() && family_name(#[trigger] families[i]) == name
}

/// The names of `metrics`, in their order.
pub open spec fn metric_names(metrics: Seq<Metric>) -> Seq<Seq<char>> {
    Seq::new(metrics.len(), |i: int| metrics[i].name())
}

/// What each of `metrics` is exposed as, but for its value.
pub open spec fn metrics_described(metrics: Seq<Metric>) -> Seq<Described> {
    Seq::new(metrics.len(), |i: int| metrics[i].described())
}

/// Whether `text` shows the metrics `metrics` and nothing else: for each in
/// turn its lines for help, kind and value, with some value that is written
/// out.
pub open spec fn shows(text: Seq<char>, metrics: Seq<Described>) -> bool {
    exists|values: Seq<Seq<char>>| #[trigger]
        with_values(metrics, values) && text == body(metrics, values)
}

/// Whether `values` holds a written value for each of `metrics`.
pub open spec fn with_values(metrics: Seq<Described>, values: Seq<Seq<char>>) -> bool {
    &&& values.len() == metrics.len()
    &&& forall|i: int| 0 <= i < values.len() ==> (#[trigger] values[i]).len() > 0
}

/// Tells whether two strings hold the same text.
pub fn same_text(a: &str, b: &str) -> (same: bool)
    ensures
        same == (a@ == b@),
{
    a.to_owned() == b.to_owned()
}

/// Finds the first family called `name`.
pub fn find_family(families: &Vec<MetricFamily>, name: &str) -> (place: usize)
    ensures
        place == place_of(families@, name@),
{
    let mut place: usize = 0;
    assert(families@.skip(0) =~= families@);
    while place < families.len() && !same_text(families[place].get_name(), name)
        invariant
            place <= families.len(),
            place_of(families@, name@) == place + place_of(families@.skip(place as int), name@),
        decreases families.len() - place,
    {
        assert(families@.skip(place as int).drop_first() =~= families@.skip(place + 1));
        place += 1;
    }
    place
}

/// Puts the families in the order of `names`: for each name in turn the
/// first family of that name. A name that no family has is passed over.
pub fn arrange(names: &Vec<String>, families: &Vec<MetricFamily>) -> (ordered: Vec<MetricFamily>)
    ensures
        ordered@ == arranged(texts(names@), families@),
{
    let mut ordered: Vec<MetricFamily> = Vec::new();
    let mut i: usize = 0;
    assert(texts(names@).take(0) =~= Seq::<Seq<char>>::empty());
    while i < names.len()
        invariant
            i <= names.len(),
            ordered@ == arranged(texts(names@).take(i as int), families@),
        decreases names.len() - i,
    {
        proof {
            let next = texts(names@).take(i + 1);
            assert(next.drop_last() =~= texts(names@).take(i as int));
            assert(next.last() == names@[i as int]@);
        }
        let place = find_family(families, names[i].as_str());
        if place < families.len() {
            ordered.push(families[place].clone());
        }
        i += 1;
    }
    assert(texts(names@).take(names@.len() as int) =~= texts(names@));
    ordered
}

/// The text of an encoded exposition.
pub fn decode_exposition(bytes: Vec<u8>) -> (text: Result<String, Error>)
    ensures
        match text {
            Ok(text) => valid_utf8(bytes@) && text@ == decode_utf8(bytes@),
            Err(error) => !valid_utf8(bytes@) && error is FromUtf8,
        },
{
    match String::from_utf8(bytes) {
        Ok(text) => Ok(text),
        Err(_) => Err(Error::FromUtf8),
    }
}

/// Encodes families with one sample each in the order of `names`. The
/// text holds the lines of each family that is named, family after family;
/// there is none where one of these families has no name.
pub fn encode_families(names: &Vec<String>, families: &Vec<MetricFamily>) -> (text: Result<
    String,
    Error,
>)
    requires
        forall|i: int| 0 <= i < families@.len() ==> is_single(#[trigger] families@[i]),
    ensures
        text is Ok <==> can_be_encoded(arranged(texts(names@), families@)),
        text is Ok ==> text->Ok_0@ == exposition(arranged(texts(names@), families@)),
        text is Err ==> text->Err_0 is PrometheusLibrary,
{
    broadcast use {vstd::utf8::encode_utf8_valid_utf8, vstd::utf8::encode_utf8_decode_utf8};

    let ordered = arrange(names, families);
    proof {
        lemma_arranged_is_chosen(texts(names@), families@);
    }
    match encode(&ordered) {
        Ok(bytes) => {
            assert(valid_utf8(encode_utf8(exposition(ordered@))));
            assert(decode_utf8(encode_utf8(exposition(ordered@))) == exposition(ordered@));
            decode_exposition(bytes)
        },
        Err(text) => Err(Error::PrometheusLibrary(text)),
    }
}

/// The place that is found for a name is that of a family of that name, if
/// it is a place at all.
pub proof fn lemma_place_of(families: Seq<MetricFamily>, name: Seq<char>)
    ensures
        0 <= place_of(families, name) <= families.len(),
        place_of(families, name) < families.len() ==> family_name(
            families[place_of(families, name)],
        ) == name,
        forall|i: int|
            0 <= i < place_of(families, name) ==> family_name(#[trigger] families[i]) != name,
    decreases families.len(),
{
    if families.len() > 0 && family_name(families[0]) != name {
        let rest = families.drop_first();
        lemma_place_of(rest, name);
        assert forall|i: int| 0 <= i < place_of(families, name) implies family_name(
            #[trigger] families[i],
        ) != name by {
            if i > 0 {
                assert(families[i] == rest[i - 1]);
            }
        }
    }
}

/// Arranging picks families: each family of the result is one of those
/// given.
pub proof fn lemma_arranged_is_chosen(names: Seq<Seq<char>>, families: Seq<MetricFamily>)
    ensures
        forall|i: int|
            0 <= i < arranged(names, families).len() ==> families.contains(
                #[trigger] arranged(names, families)[i],
            ),
    decreases names.len(),
{
    if names.len() > 0 {
        lemma_arranged_is_chosen(names.drop_last(), families);
        lemma_place_of(families, names.last());
        let before = arranged(names.drop_last(), families);
        let all = arranged(names, families);
        assert forall|i: int| 0 <= i < all.len() implies families.contains(#[trigger] all[i]) by {
            if i < before.len() {
                assert(all[i] == before[i]);
            } else {
                assert(all[i] == families[place_of(families, names.last())]);
            }
        }
    }
}

/// Where every name is the name of some family, arranging gives one family
/// for each name, in the order of the names.
pub proof fn lemma_arranged_names(names: Seq<Seq<char>>, families: Seq<MetricFamily>)
    requires
        forall|k: int| 0 <= k < names.len() ==> has_family(families, #[trigger] names[k]),
    ensures
        family_names(arranged(names, families)) == names,
    decreases names.len(),
{
    if names.len() > 0 {
        let before = names.drop_last();
        assert forall|k: int| 0 <= k < before.len() implies has_family(
            families,
            #[trigger] before[k],
        ) by {
            assert(before[k] == names[k]);
        }
        lemma_arranged_names(before, families);
        lemma_place_of(families, names.last());
        let k = names.len() - 1;
        assert(has_family(families, names[k]));
        let i = choose|i: int|
            0 <= i < families.len() && family_name(#[trigger] families[i]) == names[k];
        let place = place_of(families, names.last());
        if i < place {
            assert(family_name(families[i]) != names.last());
        }
        let all = arranged(names, families);
        let chosen = arranged(before, families);
        assert(all == chosen.push(families[place]));
        assert(family_names(chosen) == before);
        assert forall|j: int| 0 <= j < names.len() implies family_names(all)[j] == names[j] by {
            if j < before.len() {
                assert(all[j] == chosen[j]);
                assert(family_names(chosen)[j] == before[j]);
            }
        }
        assert(family_names(all) =~= names);
    } else {
        assert(family_names(arranged(names, families)) =~= names);
    }
}

/// Why a set that holds metrics called `names` refuses the metric of
/// `export`, in the words of the Prometheus library, or nothing where it
/// takes the metric. The description is looked at first, then the name, then
/// the room for it.
pub open spec fn refusal(names: Seq<Seq<char>>, export: ExportConfig) -> Option<Seq<char>> {
    if export.description@.len() == 0 || !is_metric_name(export.name@) {
        Some(refusal_to_make(export.name@, export.description@))
    } else if !is_free(names.to_set(), export.name@) {
        Some(refusal_to_register())
    } else {
        None
    }
}

/// The metrics of one scrape. It is made anew for every scrape and holds no
/// two metrics of one name.
pub struct MetricSet {
    registry: prometheus::Registry,
    names: Vec<String>,
}

impl MetricSet {
    /// The metrics in the set, in the order in which they were added. They
    /// are the very metrics that were handed out when they were added: the
    /// value that the caller gives to one of those is the value of the metric
    /// in the set.
    pub closed spec fn view(&self) -> Seq<Metric> {
        Seq::new(self.names@.len(), |i: int| registered(self.registry)[self.names@[i]@])
    }

    /// The names of the metrics in the set, in the order in which they were
    /// added.
    pub open spec fn names(&self) -> Seq<Seq<char>> {
        metric_names(self@)
    }

    /// What holds of every set: the names differ, they are the names under
    /// which the registry behind the set holds its metrics, and each metric
    /// was made from a name that can name it and a help text that says
    /// something.
    #[verifier::type_invariant]
    closed spec fn wf(&self) -> bool {
        &&& is_plain(self.registry)
        &&& registered(self.registry).dom() == texts(self.names@).to_set()
        &&& texts(self.names@).no_duplicates()
        &&& forall|i: int|
            0 <= i < self.names@.len() ==> (#[trigger] registered(
                self.registry,
            )[self.names@[i]@]).made_with() is Some
        &&& forall|i: int|
            0 <= i < self.names@.len() ==> (#[trigger] registered(
                self.registry,
            )[self.names@[i]@]).name() == self.names@[i]@
        &&& forall|i: int|
            0 <= i < self.names@.len() ==> (#[trigger] self.names@[i])@.len() > 0
    }

    /// A set without metrics.
    pub fn new() -> (set: MetricSet)
        ensures
            set@ == Seq::<Metric>::empty(),
    {
        let registry = prometheus::Registry::new();
        let names: Vec<String> = Vec::new();
        proof {
            assert(texts(names@) =~= Seq::<Seq<char>>::empty());
            assert(texts(names@).to_set() =~= Set::<Seq<char>>::empty());
            assert(registered(registry).dom() =~= Set::<Seq<char>>::empty());
        }
        let set = MetricSet { registry, names };
        assert(set@ =~= Seq::<Metric>::empty());
        set
    }

    /// Makes the metric that `export` defines and adds it to the set. The
    /// set comes back with the metric, which has no value yet: that is the
    /// caller's to set. The set holds the metric that is handed out, under
    /// the name, the description and the kind of the export.
    ///
    /// The metric is refused, and the set comes back as it was, where the
    /// description is empty, where the name cannot name a metric, and where
    /// the set has no room for the name, as it never has for a name that it
    /// holds already. The error then holds the words of [`refusal`].
    pub fn add(self, export: &ExportConfig) -> (added: (MetricSet, Result<Metric, Error>))
        ensures
            self.names().contains(export.name@) ==> added.1 is Err,
            match added.1 {
                Ok(metric) => {
                    &&& refusal(self.names(), *export) is None
                    &&& added.0@ == self@.push(metric)
                    &&& metric.made_with() == Some((export.name@, export.description@))
                    &&& metric.kind() == export.kind
                },
                Err(error) => {
                    &&& error is PrometheusLibrary
                    &&& refusal(self.names(), *export) == Some(error->PrometheusLibrary_0@)
                    &&& added.0@ == self@
                },
            },
    {
        proof {
            use_type_invariant(&self);
            assert(self.names() =~= texts(self.names@));
            lemma_held_name_is_not_free(self.names(), export.name@);
        }
        let made = match export.kind {
            PrometheusType::Counter => {
                match new_counter(export.name.as_str(), export.description.as_str()) {
                    Ok(handle) => Ok(Metric::Counter(handle)),
                    Err(text) => Err(text),
                }
            },
            PrometheusType::Gauge => {
                match new_gauge(export.name.as_str(), export.description.as_str()) {
                    Ok(handle) => Ok(Metric::Gauge(handle)),
                    Err(text) => Err(text),
                }
            },
        };
        let metric = match made {
            Ok(metric) => metric,
            Err(text) => {
                return (self, Err(Error::PrometheusLibrary(text)));
            },
        };
        let ghost before = self;
        let MetricSet { registry, mut names } = self;
        let (registry, done) = register(registry, &metric);
        match done {
            Ok(()) => {
                let ghost held = names@;
                names.push(export.name.clone());
                proof {
                    assert(texts(names@) =~= texts(held).push(export.name@));
                    texts(held).lemma_push_to_set_commute(export.name@);
                    assert(!texts(held).contains(export.name@));
                    assert forall|i: int| 0 <= i < held.len() implies held[i]@ != export.name@ by {
                        assert(texts(held)[i] == held[i]@);
                    }
                    assert(registered(registry).dom() =~= texts(names@).to_set());
                }
                let set = MetricSet { registry, names };
                assert(set@ =~= before@.push(metric));
                (set, Ok(metric))
            },
            Err(text) => {
                let set = MetricSet { registry, names };
                assert(set@ =~= before@);
                (set, Err(Error::PrometheusLibrary(text)))
            },
        }
    }

    /// Encodes the metrics of the set, with the values they have been given,
    /// as the text that is sent to the scraper. The text shows the metrics
    /// of the set and nothing else, in the order in which they were added.
    /// The encoding does not fail: every metric of the set has a name and a
    /// sample, and that is all the Prometheus library asks for.
    pub fn encode(&self) -> (text: Result<String, Error>)
        ensures
            text is Ok,
            shows(text->Ok_0@, metrics_described(self@)),
    {
        proof {
            use_type_invariant(self);
        }
        let families = self.registry.gather();
        let ghost names = texts(self.names@);
        let ghost ordered = arranged(names, families@);
        proof {
            assert forall|k: int| 0 <= k < names.len() implies has_family(
                families@,
                #[trigger] names[k],
            ) by {
                assert(names.to_set().contains(names[k]));
            }
            lemma_arranged_names(names, families@);
            lemma_arranged_is_chosen(names, families@);
            assert forall|k: int| 0 <= k < ordered.len() implies family_name(
                #[trigger] ordered[k],
            ).len() > 0 && family_described(ordered[k]) == self@[k].described() by {
                assert(family_names(ordered)[k] == names[k]);
                assert(families@.contains(ordered[k]));
                let i = choose|i: int| 0 <= i < families@.len() && families@[i] == ordered[k];
                assert(family_name(families@[i]) == self.names@[k]@);
            }
            assert(families_described(ordered) =~= metrics_described(self@));
            assert(with_values(metrics_described(self@), family_values(ordered))) by {
                assert forall|k: int| 0 <= k < ordered.len() implies (#[trigger] family_values(
                    ordered,
                )[k]).len() > 0 by {
                    assert(families@.contains(ordered[k]));
                }
            }
        }
        encode_families(&self.names, &families)
    }
}

/// The lines of metrics are those of the first `k` of them and, behind
/// these, those of the others.
pub proof fn lemma_body_in_two_parts(metrics: Seq<Described>, values: Seq<Seq<char>>, k: int)
    requires
        values.len() == metrics.len(),
        0 <= k <= metrics.len(),
    ensures
        body(metrics, values) == body(metrics.take(k), values.take(k)) + body(
            metrics.skip(k),
            values.skip(k),
        ),
    decreases metrics.len(),
{
    let front = body(metrics.take(k), values.take(k));
    if k == metrics.len() {
        assert(metrics.take(k) =~= metrics);
        assert(values.take(k) =~= values);
        assert(metrics.skip(k).len() == 0);
        assert(front + Seq::<char>::empty() =~= front);
    } else {
        let most = metrics.drop_last();
        let most_values = values.drop_last();
        lemma_body_in_two_parts(most, most_values, k);
        assert(most.take(k) =~= metrics.take(k));
        assert(most_values.take(k) =~= values.take(k));
        assert(most.skip(k) =~= metrics.skip(k).drop_last());
        assert(most_values.skip(k) =~= values.skip(k).drop_last());
        assert(metrics.skip(k).last() == metrics.last());
        assert(values.skip(k).last() == values.last());
        let middle = body(most.skip(k), most_values.skip(k));
        let last = metrics.last().lines(values.last());
        assert(body(metrics.skip(k), values.skip(k)) == middle + last);
        assert((front + middle) + last =~= front + (middle + last));
    }
}

/// Every metric has its lines in the text, and the lines stand in the order
/// of the metrics: in front of the lines of a metric stand the lines of the
/// metrics before it and nothing else, behind them the lines of the metrics
/// after it and nothing else.
pub proof fn lemma_lines_stand_in_order(metrics: Seq<Described>, values: Seq<Seq<char>>, i: int)
    requires
        values.len() == metrics.len(),
        0 <= i < metrics.len(),
    ensures
        body(metrics, values) == body(metrics.take(i), values.take(i)) + metrics[i].lines(
            values[i],
        ) + body(metrics.skip(i + 1), values.skip(i + 1)),
{
    let front = body(metrics.take(i), values.take(i));
    let rest = metrics.skip(i);
    let rest_values = values.skip(i);
    lemma_body_in_two_parts(metrics, values, i);
    lemma_body_in_two_parts(rest, rest_values, 1);
    assert(rest.skip(1) =~= metrics.skip(i + 1));
    assert(rest_values.skip(1) =~= values.skip(i + 1));
    let one = rest.take(1);
    let one_value = rest_values.take(1);
    assert(one.last() == metrics[i]);
    assert(one_value.last() == values[i]);
    assert(one.drop_last().len() == 0);
    assert(body(one.drop_last(), one_value.drop_last()) =~= Seq::<char>::empty());
    assert(body(one, one_value) =~= metrics[i].lines(values[i]));
    let behind = body(metrics.skip(i + 1), values.skip(i + 1));
    assert(front + (metrics[i].lines(values[i]) + behind) =~= front + metrics[i].lines(values[i])
        + behind);
}

/// What a text shows depends on nothing but the metrics and their values as
/// they are written out: two texts that show the same metrics with the same
/// values are the same text.
pub proof fn lemma_same_values_same_text(
    metrics: Seq<Described>,
    values: Seq<Seq<char>>,
    one: Seq<char>,
    other: Seq<char>,
)
    requires
        one == body(metrics, values),
        other == body(metrics, values),
    ensures
        one == other,
{
}

/// A set never has room for a name that it holds.
pub proof fn lemma_held_name_is_not_free(names: Seq<Seq<char>>, name: Seq<char>)
    ensures
        names.contains(name) ==> !is_free(names.to_set(), name),
{
    if names.contains(name) {
        assert(names.to_set().contains(name));
    }
}

} // verus!
