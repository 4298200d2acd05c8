//! The scrape handler: one inbound request drives fetch classification,
//! decode, publish and encode, and maps every pipeline failure to an error
//! response while leaving the registry untouched.

use vstd::prelude::*;
use crate::config::spec_dec_str;
use crate::encode::{encode_exposition, exposition_content_type, spec_encode};
use crate::observation::{
    decode_observation, obs_wf, spec_decode, CurrentObservation, DecodeError, DecodeFailure,
    ObservationView,
};
use crate::registry::{
    index_of_key, labels_view, registry_wf, spec_set, text_ok, MetricRegistry, RegistryError,
    Series, SeriesView,
};

verus! {

/// How one upstream fetch failed.
#[derive(Debug, Clone, Copy, PartialEq, Eq, Structural)]
pub enum FetchError {
    /// The upstream could not be reached at the transport level.
    UpstreamUnreachable,
    /// The upstream answered with the non-success status carried here.
    UpstreamStatusError(u16),
    /// The response body could not be read to completion.
    UpstreamReadError,
}

/// Classifies an answered request: a success status hands the body on, any
/// other status is an upstream status failure.
pub fn classify_status(status: u16, body: String) -> (r: Result<String, FetchError>)
    ensures
        200 <= status < 300 ==> r == Ok::<String, FetchError>(body),
        !(200 <= status < 300) ==> r == Err::<String, FetchError>(
            FetchError::UpstreamStatusError(status),
        ),
{
    if 200 <= status && status < 300 {
        Ok(body)
    } else {
        Err(FetchError::UpstreamStatusError(status))
    }
}

/// The response handed back for one scrape.
pub struct ScrapeResponse {
    /// The HTTP status to answer with.
    pub status: u16,
    /// The content type, present only on success.
    pub content_type: Option<String>,
    /// The exposition text, or a short diagnostic on failure.
    pub body: String,
}

/// The diagnostic body for a failed fetch.
pub open spec fn fetch_diagnostic(e: FetchError) -> Seq<char> {
    match e {
        FetchError::UpstreamUnreachable => "scrape failed: upstream unreachable"@,
        FetchError::UpstreamStatusError(code) => "scrape failed: upstream returned status "@
            + spec_dec_str(code as nat),
        FetchError::UpstreamReadError => "scrape failed: upstream response could not be read"@,
    }
}

/// The diagnostic body for a failed decode.
pub open spec fn decode_diagnostic(f: DecodeFailure) -> Seq<char> {
    match f {
        DecodeFailure::Malformed => "scrape failed: malformed upstream document"@,
        DecodeFailure::MissingField(n) => "scrape failed: missing field "@ + n,
        DecodeFailure::NotNumeric(n) => "scrape failed: non-numeric field "@ + n,
    }
}

fn fetch_diagnostic_text(e: &FetchError) -> (r: String)
    ensures
        r@ == fetch_diagnostic(*e),
{
    match e {
        FetchError::UpstreamUnreachable => "scrape failed: upstream unreachable".to_owned(),
        FetchError::UpstreamStatusError(code) => {
            let out = "scrape failed: upstream returned status ".to_owned();
            let rendered = crate::config::render_u16(*code);
            out.concat(rendered.as_str())
        },
        FetchError::UpstreamReadError => "scrape failed: upstream response could not be read"
            .to_owned(),
    }
}

fn decode_diagnostic_text(e: &DecodeError) -> (r: String)
    ensures
        r@ == decode_diagnostic(e@),
{
    match e {
        DecodeError::Malformed => "scrape failed: malformed upstream document".to_owned(),
        DecodeError::MissingField(n) => {
            let out = "scrape failed: missing field ".to_owned();
            out.concat(n.as_str())
        },
        DecodeError::NotNumeric(n) => {
            let out = "scrape failed: non-numeric field ".to_owned();
            out.concat(n.as_str())
        },
    }
}

/// The label set every gauge carries: the configured station location.
pub open spec fn location_labels(loc: Seq<char>) -> Seq<(Seq<char>, Seq<char>)> {
    seq![("location"@, loc)]
}

/// The label set of an insolation series: the location and a `type` label.
pub open spec fn insolation_labels(loc: Seq<char>, ty: Seq<char>) -> Seq<(Seq<char>, Seq<char>)> {
    seq![("location"@, loc), ("type"@, ty)]
}

fn location_labels_vec(location: &str) -> (r: Vec<(String, String)>)
    ensures
        labels_view(r@) == location_labels(location@),
{
    let mut v: Vec<(String, String)> = Vec::new();
    v.push(("location".to_owned(), location.to_owned()));
    proof {
        assert(labels_view(v@) =~= location_labels(location@));
    }
    v
}

fn insolation_labels_vec(location: &str, ty: &str) -> (r: Vec<(String, String)>)
    ensures
        labels_view(r@) == insolation_labels(location@, ty@),
{
    let mut v: Vec<(String, String)> = Vec::new();
    v.push(("location".to_owned(), location.to_owned()));
    v.push(("type".to_owned(), ty.to_owned()));
    proof {
        assert(labels_view(v@) =~= insolation_labels(location@, ty@));
    }
    v
}

/// The registry contents right after startup registration: the four gauges,
/// each at zero.
pub open spec fn initial_series(loc: Seq<char>) -> Seq<SeriesView> {
    seq![
        SeriesView {
            name: "thermostat_temperature"@,
            help: "The temperature in degrees C at the location"@,
            labels: location_labels(loc),
            value: "0"@,
        },
        SeriesView {
            name: "thermostat_humidity"@,
            help: "The humidity in % at the location"@,
            labels: location_labels(loc),
            value: "0"@,
        },
        SeriesView {
            name: "thermostat_insolation"@,
            help: "The insolation in W/m2 at the location"@,
            labels: insolation_labels(loc, "measured"@),
            value: "0"@,
        },
        SeriesView {
            name: "thermostat_insolation"@,
            help: "The insolation in W/m2 at the location"@,
            labels: insolation_labels(loc, "predicted"@),
            value: "0"@,
        },
    ]
}

/// The registry after one observation is published: each gauge overwritten
/// with the observation's matching quantity.
pub open spec fn spec_publish(
    series: Seq<SeriesView>,
    loc: Seq<char>,
    v: ObservationView,
) -> Seq<SeriesView> {
    spec_set(
        spec_set(
            spec_set(
                spec_set(series, "thermostat_temperature"@, location_labels(loc), v.temperature),
                "thermostat_humidity"@,
                location_labels(loc),
                v.humidity,
            ),
            "thermostat_insolation"@,
            insolation_labels(loc, "measured"@),
            v.insolation,
        ),
        "thermostat_insolation"@,
        insolation_labels(loc, "predicted"@),
        v.insolation_predicted,
    )
}

proof fn lemma_index_same_keys(
    a: Seq<SeriesView>,
    b: Seq<SeriesView>,
    name: Seq<char>,
    labels: Seq<(Seq<char>, Seq<char>)>,
)
    requires
        a.len() == b.len(),
        forall|i: int|
            0 <= i < a.len() ==> (#[trigger] a[i]).name == b[i].name && a[i].labels == b[i].labels,
    ensures
        index_of_key(a, name, labels) == index_of_key(b, name, labels),
    decreases a.len(),
{
    if a.len() > 0 {
        assert(a.drop_first().len() == b.drop_first().len());
        assert forall|i: int| 0 <= i < a.drop_first().len() implies (#[trigger] a.drop_first()[i]).name == b.drop_first()[i].name && a.drop_first()[i].labels == b.drop_first()[i].labels by {
            assert(a.drop_first()[i] == a[i + 1]);
            assert(b.drop_first()[i] == b[i + 1]);
        }
        lemma_index_same_keys(a.drop_first(), b.drop_first(), name, labels);
    }
}

/// Overwriting one value never adds, removes or re-keys a series.
proof fn lemma_set_keeps_keys(
    series: Seq<SeriesView>,
    n1: Seq<char>,
    l1: Seq<(Seq<char>, Seq<char>)>,
    value: Seq<char>,
    n2: Seq<char>,
    l2: Seq<(Seq<char>, Seq<char>)>,
)
    ensures
        index_of_key(spec_set(series, n1, l1, value), n2, l2) == index_of_key(series, n2, l2),
        spec_set(series, n1, l1, value).len() == series.len(),
{
    crate::registry::lemma_index_of_key(series, n1, l1);
    let after = spec_set(series, n1, l1, value);
    assert forall|i: int| 0 <= i < series.len() implies (#[trigger] series[i]).name
        == after[i].name && series[i].labels == after[i].labels by {}
    lemma_index_same_keys(series, after, n2, l2);
}

/// Ground facts about the fixed metric names, helps and labels.
proof fn lemma_literal_facts()
    ensures
        crate::registry::name_ok("thermostat_temperature"@),
        crate::registry::name_ok("thermostat_humidity"@),
        crate::registry::name_ok("thermostat_insolation"@),
        crate::registry::name_ok("location"@),
        crate::registry::name_ok("type"@),
        text_ok("The temperature in degrees C at the location"@),
        text_ok("The humidity in % at the location"@),
        text_ok("The insolation in W/m2 at the location"@),
        text_ok("measured"@),
        text_ok("predicted"@),
        crate::text::is_number("0"@),
        "thermostat_temperature"@ != "thermostat_humidity"@,
        "thermostat_temperature"@ != "thermostat_insolation"@,
        "thermostat_humidity"@ != "thermostat_insolation"@,
        "measured"@ != "predicted"@,
{
    reveal_strlit("thermostat_temperature");
    reveal_strlit("thermostat_humidity");
    reveal_strlit("thermostat_insolation");
    reveal_strlit("location");
    reveal_strlit("type");
    reveal_strlit("The temperature in degrees C at the location");
    reveal_strlit("The humidity in % at the location");
    reveal_strlit("The insolation in W/m2 at the location");
    reveal_strlit("measured");
    reveal_strlit("predicted");
    reveal_strlit("0");
    assert("0"@.len() == 1);
    assert("0"@.drop_last() =~= Seq::<char>::empty());
    assert(crate::text::dot_count(Seq::<char>::empty()) == 0);
    assert("0"@.last() == '0');
    assert(crate::text::dot_count("0"@) == 0);
    assert(crate::text::number_body("0"@) == "0"@);
    assert(crate::text::is_number("0"@));
}

/// The label sets of the fixed gauges are well-formed exactly when the
/// location text is printable.
proof fn lemma_labels_ok(loc: Seq<char>)
    ensures
        crate::registry::labels_ok(location_labels(loc)) == text_ok(loc),
        crate::registry::labels_ok(insolation_labels(loc, "measured"@)) == text_ok(loc),
        crate::registry::labels_ok(insolation_labels(loc, "predicted"@)) == text_ok(loc),
{
    lemma_literal_facts();
    let ll = location_labels(loc);
    let im = insolation_labels(loc, "measured"@);
    let ip = insolation_labels(loc, "predicted"@);
    assert(ll[0] == ("location"@, loc));
    assert(im[0] == ("location"@, loc) && im[1] == ("type"@, "measured"@));
    assert(ip[0] == ("location"@, loc) && ip[1] == ("type"@, "predicted"@));
    if text_ok(loc) {
        assert forall|i: int| 0 <= i < ll.len() implies crate::registry::label_pair_ok(
            #[trigger] ll[i],
        ) by {
            assert(ll[i] == ("location"@, loc));
        }
        assert forall|i: int| 0 <= i < im.len() implies crate::registry::label_pair_ok(
            #[trigger] im[i],
        ) by {
            if i == 0 {
                assert(im[i] == ("location"@, loc));
            } else {
                assert(im[i] == ("type"@, "measured"@));
            }
        }
        assert forall|i: int| 0 <= i < ip.len() implies crate::registry::label_pair_ok(
            #[trigger] ip[i],
        ) by {
            if i == 0 {
                assert(ip[i] == ("location"@, loc));
            } else {
                assert(ip[i] == ("type"@, "predicted"@));
            }
        }
    } else {
        assert(!crate::registry::label_pair_ok(ll[0]));
        assert(!crate::registry::label_pair_ok(im[0]));
        assert(!crate::registry::label_pair_ok(ip[0]));
    }
}

/// The exporter: the configured location and the process-wide registry.
pub struct WeatherExporter {
    pub registry: MetricRegistry,
    pub location: String,
}

impl WeatherExporter {
    /// The exporter's invariant: a well-formed registry holding the four
    /// gauges for this location.
    pub open spec fn wf(&self) -> bool {
        &&& registry_wf(self.registry@)
        &&& text_ok(self.location@)
        &&& index_of_key(
            self.registry@,
            "thermostat_temperature"@,
            location_labels(self.location@),
        ) >= 0
        &&& index_of_key(
            self.registry@,
            "thermostat_humidity"@,
            location_labels(self.location@),
        ) >= 0
        &&& index_of_key(
            self.registry@,
            "thermostat_insolation"@,
            insolation_labels(self.location@, "measured"@),
        ) >= 0
        &&& index_of_key(
            self.registry@,
            "thermostat_insolation"@,
            insolation_labels(self.location@, "predicted"@),
        ) >= 0
    }

    /// Builds the exporter and registers its fixed gauge set, every value at
    /// zero. Succeeds exactly when the location fits in a label value.
    pub fn new(location: &str) -> (r: Result<WeatherExporter, RegistryError>)
        ensures
            r is Ok <==> text_ok(location@),
            r matches Ok(e) ==> e.wf() && e.location@ == location@ && e.registry@
                =~= initial_series(location@),
    {
        let mut reg = MetricRegistry::new();
        let s1 = Series {
            name: "thermostat_temperature".to_owned(),
            help: "The temperature in degrees C at the location".to_owned(),
            labels: location_labels_vec(location),
            value: "0".to_owned(),
        };
        let ghost g1 = s1@;
        proof {
            lemma_literal_facts();
            lemma_labels_ok(location@);
            assert(g1.name == "thermostat_temperature"@);
            assert(g1.help == "The temperature in degrees C at the location"@);
            assert(g1.labels == location_labels(location@));
            assert(g1.value == "0"@);
            assert(crate::registry::series_wf(g1) == text_ok(location@));
            assert(index_of_key(reg@, g1.name, g1.labels) == -1);
        }
        let r1 = reg.register(s1);
        if r1.is_err() {
            return Err(RegistryError::BadRegistration);
        }
        proof {
            assert(reg@ =~= seq![g1]);
        }
        let s2 = Series {
            name: "thermostat_humidity".to_owned(),
            help: "The humidity in % at the location".to_owned(),
            labels: location_labels_vec(location),
            value: "0".to_owned(),
        };
        let ghost g2 = s2@;
        proof {
            lemma_literal_facts();
            lemma_labels_ok(location@);
            assert(g2.name == "thermostat_humidity"@);
            assert(g2.labels == location_labels(location@));
            assert(crate::registry::series_wf(g2) == text_ok(location@));
            assert(g2.name != g1.name);
            reveal_with_fuel(index_of_key, 6);
            assert(index_of_key(reg@, g2.name, g2.labels) == -1);
        }
        let r2 = reg.register(s2);
        if r2.is_err() {
            return Err(RegistryError::BadRegistration);
        }
        proof {
            assert(reg@ =~= seq![g1, g2]);
        }
        let s3 = Series {
            name: "thermostat_insolation".to_owned(),
            help: "The insolation in W/m2 at the location".to_owned(),
            labels: insolation_labels_vec(location, "measured"),
            value: "0".to_owned(),
        };
        let ghost g3 = s3@;
        proof {
            lemma_literal_facts();
            lemma_labels_ok(location@);
            assert(g3.name == "thermostat_insolation"@);
            assert(g3.labels == insolation_labels(location@, "measured"@));
            assert(crate::registry::series_wf(g3) == text_ok(location@));
            assert(g3.name != g1.name && g3.name != g2.name);
            reveal_with_fuel(index_of_key, 6);
            assert(index_of_key(reg@, g3.name, g3.labels) == -1);
        }
        let r3 = reg.register(s3);
        if r3.is_err() {
            return Err(RegistryError::BadRegistration);
        }
        proof {
            assert(reg@ =~= seq![g1, g2, g3]);
        }
        let s4 = Series {
            name: "thermostat_insolation".to_owned(),
            help: "The insolation in W/m2 at the location".to_owned(),
            labels: insolation_labels_vec(location, "predicted"),
            value: "0".to_owned(),
        };
        let ghost g4 = s4@;
        proof {
            lemma_literal_facts();
            lemma_labels_ok(location@);
            assert(g4.name == "thermostat_insolation"@);
            assert(g4.labels == insolation_labels(location@, "predicted"@));
            assert(crate::registry::series_wf(g4) == text_ok(location@));
            assert("measured"@ != "predicted"@);
            assert(g4.labels != g3.labels);
            assert(g4.name != g1.name && g4.name != g2.name);
            reveal_with_fuel(index_of_key, 6);
            assert(index_of_key(reg@, g4.name, g4.labels) == -1);
        }
        let r4 = reg.register(s4);
        if r4.is_err() {
            return Err(RegistryError::BadRegistration);
        }
        proof {
            assert(reg@ =~= initial_series(location@));
            reveal_with_fuel(index_of_key, 6);
            assert(index_of_key(reg@, "thermostat_temperature"@, location_labels(location@))
                == 0);
            assert(index_of_key(reg@, "thermostat_humidity"@, location_labels(location@)) == 1);
            assert(index_of_key(
                reg@,
                "thermostat_insolation"@,
                insolation_labels(location@, "measured"@),
            ) == 2);
            assert(index_of_key(
                reg@,
                "thermostat_insolation"@,
                insolation_labels(location@, "predicted"@),
            ) == 3);
        }
        Ok(WeatherExporter { registry: reg, location: location.to_owned() })
    }

    /// Runs one full scrape cycle on an already-classified fetch outcome.
    ///
    /// A fetch or decode failure answers with a bad-gateway status and a
    /// diagnostic, and leaves every gauge exactly as it was; a decoded
    /// observation overwrites the four gauges and answers with the encoded
    /// snapshot under the exposition content type.
    pub fn handle_scrape(&mut self, fetch: Result<String, FetchError>) -> (r: ScrapeResponse)
        requires
            old(self).wf(),
        ensures
            final(self).wf(),
            final(self).location == old(self).location,
            match fetch {
                Err(e) => final(self).registry@ == old(self).registry@ && r.status == 502
                    && r.content_type is None && r.body@ == fetch_diagnostic(e),
                Ok(body) => match spec_decode(body@) {
                    Err(f) => final(self).registry@ == old(self).registry@ && r.status == 502
                        && r.content_type is None && r.body@ == decode_diagnostic(f),
                    Ok(v) => final(self).registry@ == spec_publish(
                        old(self).registry@,
                        old(self).location@,
                        v,
                    ) && r.status == 200 && (r.content_type matches Some(ct) && ct@
                        == "text/plain; version=0.0.4"@) && r.body@ == spec_encode(
                        final(self).registry@,
                    ),
                },
            },
    {
        let body = match fetch {
            Err(e) => {
                let diag = fetch_diagnostic_text(&e);
                return ScrapeResponse { status: 502, content_type: None, body: diag };
            },
            Ok(body) => body,
        };
        let obs = match decode_observation(body.as_str()) {
            Err(e) => {
                let diag = decode_diagnostic_text(&e);
                return ScrapeResponse { status: 502, content_type: None, body: diag };
            },
            Ok(obs) => obs,
        };
        self.publish(&obs);
        let text = encode_exposition(&self.registry);
        ScrapeResponse {
            status: 200,
            content_type: Some(exposition_content_type()),
            body: text,
        }
    }

    /// Copies the observation's quantities into the four gauges; with the
    /// gauges registered this cannot fail.
    fn publish(&mut self, obs: &CurrentObservation)
        requires
            old(self).wf(),
            obs_wf(obs@),
        ensures
            final(self).wf(),
            final(self).location == old(self).location,
            final(self).registry@ == spec_publish(old(self).registry@, old(self).location@, obs@),
    {
        let ghost loc = self.location@;
        let ghost r0 = self.registry@;
        proof {
            assert(obs@.temperature == obs.temperature@);
            assert(obs@.humidity == obs.humidity@);
            assert(obs@.insolation == obs.insolation@);
            assert(obs@.insolation_predicted == obs.insolation_predicted@);
        }
        let loc_labels = location_labels_vec(self.location.as_str());
        let measured_labels = insolation_labels_vec(self.location.as_str(), "measured");
        let predicted_labels = insolation_labels_vec(self.location.as_str(), "predicted");
        proof {
            lemma_set_keeps_keys(
                r0,
                "thermostat_temperature"@,
                location_labels(loc),
                obs@.temperature,
                "thermostat_humidity"@,
                location_labels(loc),
            );
        }
        let set1 = self.registry.set(
            "thermostat_temperature",
            &loc_labels,
            obs.temperature.as_str(),
        );
        if set1.is_err() {
            proof {
                assert(false);
            }
        }
        let ghost r1 = self.registry@;
        proof {
            lemma_set_keeps_keys(
                r0,
                "thermostat_temperature"@,
                location_labels(loc),
                obs@.temperature,
                "thermostat_insolation"@,
                insolation_labels(loc, "measured"@),
            );
            lemma_set_keeps_keys(
                r1,
                "thermostat_humidity"@,
                location_labels(loc),
                obs@.humidity,
                "thermostat_insolation"@,
                insolation_labels(loc, "measured"@),
            );
        }
        let set2 = self.registry.set("thermostat_humidity", &loc_labels, obs.humidity.as_str());
        if set2.is_err() {
            proof {
                assert(false);
            }
        }
        let ghost r2 = self.registry@;
        proof {
            lemma_set_keeps_keys(
                r0,
                "thermostat_temperature"@,
                location_labels(loc),
                obs@.temperature,
                "thermostat_insolation"@,
                insolation_labels(loc, "predicted"@),
            );
            lemma_set_keeps_keys(
                r1,
                "thermostat_humidity"@,
                location_labels(loc),
                obs@.humidity,
                "thermostat_insolation"@,
                insolation_labels(loc, "predicted"@),
            );
            lemma_set_keeps_keys(
                r2,
                "thermostat_insolation"@,
                insolation_labels(loc, "measured"@),
                obs@.insolation,
                "thermostat_insolation"@,
                insolation_labels(loc, "predicted"@),
            );
        }
        let set3 = self.registry.set(
            "thermostat_insolation",
            &measured_labels,
            obs.insolation.as_str(),
        );
        if set3.is_err() {
            proof {
                assert(false);
            }
        }
        let ghost r3 = self.registry@;
        let set4 = self.registry.set(
            "thermostat_insolation",
            &predicted_labels,
            obs.insolation_predicted.as_str(),
        );
        if set4.is_err() {
            proof {
                assert(false);
            }
        }
        proof {
            lemma_set_keeps_keys(
                r3,
                "thermostat_insolation"@,
                insolation_labels(loc, "predicted"@),
                obs@.insolation_predicted,
                "thermostat_temperature"@,
                location_labels(loc),
            );
            lemma_set_keeps_keys(
                r3,
                "thermostat_insolation"@,
                insolation_labels(loc, "predicted"@),
                obs@.insolation_predicted,
                "thermostat_humidity"@,
                location_labels(loc),
            );
            lemma_set_keeps_keys(
                r3,
                "thermostat_insolation"@,
                insolation_labels(loc, "predicted"@),
                obs@.insolation_predicted,
                "thermostat_insolation"@,
                insolation_labels(loc, "measured"@),
            );
            lemma_set_keeps_keys(
                r2,
                "thermostat_insolation"@,
                insolation_labels(loc, "measured"@),
                obs@.insolation,
                "thermostat_temperature"@,
                location_labels(loc),
            );
            lemma_set_keeps_keys(
                r2,
                "thermostat_insolation"@,
                insolation_labels(loc, "measured"@),
                obs@.insolation,
                "thermostat_humidity"@,
                location_labels(loc),
            );
            lemma_set_keeps_keys(
                r1,
                "thermostat_humidity"@,
                location_labels(loc),
                obs@.humidity,
                "thermostat_temperature"@,
                location_labels(loc),
            );
            lemma_set_keeps_keys(
                r0,
                "thermostat_temperature"@,
                location_labels(loc),
                obs@.temperature,
                "thermostat_temperature"@,
                location_labels(loc),
            );
            lemma_set_keeps_keys(
                r1,
                "thermostat_humidity"@,
                location_labels(loc),
                obs@.humidity,
                "thermostat_humidity"@,
                location_labels(loc),
            );
            lemma_set_keeps_keys(
                r2,
                "thermostat_insolation"@,
                insolation_labels(loc, "measured"@),
                obs@.insolation,
                "thermostat_insolation"@,
                insolation_labels(loc, "measured"@),
            );
            lemma_set_keeps_keys(
                r3,
                "thermostat_insolation"@,
                insolation_labels(loc, "predicted"@),
                obs@.insolation_predicted,
                "thermostat_insolation"@,
                insolation_labels(loc, "predicted"@),
            );
        }
    }
}

/// Publishing one observation is a pure last-value overwrite: each of the
/// four gauges ends at exactly that observation's quantity, and no other
/// series moves. No rate, delta or aggregate is ever computed.
pub proof fn lemma_publish_last_value(series: Seq<SeriesView>, loc: Seq<char>, v: ObservationView)
    requires
        registry_wf(series),
        index_of_key(series, "thermostat_temperature"@, location_labels(loc)) >= 0,
        index_of_key(series, "thermostat_humidity"@, location_labels(loc)) >= 0,
        index_of_key(series, "thermostat_insolation"@, insolation_labels(loc, "measured"@)) >= 0,
        index_of_key(series, "thermostat_insolation"@, insolation_labels(loc, "predicted"@)) >= 0,
    ensures
        spec_publish(series, loc, v).len() == series.len(),
        spec_publish(series, loc, v)[index_of_key(
            series,
            "thermostat_temperature"@,
            location_labels(loc),
        )].value == v.temperature,
        spec_publish(series, loc, v)[index_of_key(
            series,
            "thermostat_humidity"@,
            location_labels(loc),
        )].value == v.humidity,
        spec_publish(series, loc, v)[index_of_key(
            series,
            "thermostat_insolation"@,
            insolation_labels(loc, "measured"@),
        )].value == v.insolation,
        spec_publish(series, loc, v)[index_of_key(
            series,
            "thermostat_insolation"@,
            insolation_labels(loc, "predicted"@),
        )].value == v.insolation_predicted,
        forall|i: int|
            0 <= i < series.len() && i != index_of_key(
                series,
                "thermostat_temperature"@,
                location_labels(loc),
            ) && i != index_of_key(series, "thermostat_humidity"@, location_labels(loc)) && i
                != index_of_key(series, "thermostat_insolation"@, insolation_labels(loc, "measured"@))
                && i != index_of_key(
                series,
                "thermostat_insolation"@,
                insolation_labels(loc, "predicted"@),
            ) ==> #[trigger] spec_publish(series, loc, v)[i] == series[i],
{
    lemma_literal_facts();
    let n1 = "thermostat_temperature"@;
    let n2 = "thermostat_humidity"@;
    let n3 = "thermostat_insolation"@;
    let l12 = location_labels(loc);
    let l3 = insolation_labels(loc, "measured"@);
    let l4 = insolation_labels(loc, "predicted"@);
    let i1 = index_of_key(series, n1, l12);
    let i2 = index_of_key(series, n2, l12);
    let i3 = index_of_key(series, n3, l3);
    let i4 = index_of_key(series, n3, l4);
    crate::registry::lemma_index_of_key(series, n1, l12);
    crate::registry::lemma_index_of_key(series, n2, l12);
    crate::registry::lemma_index_of_key(series, n3, l3);
    crate::registry::lemma_index_of_key(series, n3, l4);
    assert(i1 != i2 && i1 != i3 && i1 != i4 && i2 != i3 && i2 != i4);
    assert(l3[1] == ("type"@, "measured"@) && l4[1] == ("type"@, "predicted"@));
    assert(l3 != l4);
    assert(i3 != i4);
    let r1 = spec_set(series, n1, l12, v.temperature);
    assert(r1 == series.update(i1, SeriesView { value: v.temperature, ..series[i1] }));
    lemma_set_keeps_keys(series, n1, l12, v.temperature, n2, l12);
    lemma_set_keeps_keys(series, n1, l12, v.temperature, n3, l3);
    lemma_set_keeps_keys(series, n1, l12, v.temperature, n3, l4);
    let r2 = spec_set(r1, n2, l12, v.humidity);
    assert(r2 == r1.update(i2, SeriesView { value: v.humidity, ..r1[i2] }));
    lemma_set_keeps_keys(r1, n2, l12, v.humidity, n3, l3);
    lemma_set_keeps_keys(r1, n2, l12, v.humidity, n3, l4);
    let r3 = spec_set(r2, n3, l3, v.insolation);
    assert(r3 == r2.update(i3, SeriesView { value: v.insolation, ..r2[i3] }));
    lemma_set_keeps_keys(r2, n3, l3, v.insolation, n3, l4);
    let r4 = spec_set(r3, n3, l4, v.insolation_predicted);
    assert(r4 == r3.update(i4, SeriesView { value: v.insolation_predicted, ..r3[i4] }));
    assert(spec_publish(series, loc, v) == r4);
    assert(r4[i1].value == v.temperature);
    assert(r4[i2].value == v.humidity);
    assert(r4[i3].value == v.insolation);
    assert(r4[i4].value == v.insolation_predicted);
}

} // verus!
