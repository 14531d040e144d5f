//! Checking the options that go into Sora's connect message.
//!
//! The values given on the command line are checked here, before they are sent, so that
//! a refusal by the Sora server does not leave the cause unclear.

use vstd::prelude::*;

use crate::text::{dec, push_decimal, str_eq};

verus! {

/// Maximum length of a DataChannel label, `#` included (characters).
pub const MAX_DATA_CHANNEL_LABEL_CHARS: usize = 32;

/// A DataChannel to create on connect.
#[derive(Debug, Clone)]
pub struct ConnectDataChannel {
    /// Label (begins with `#`).
    pub label: String,
    /// Direction of the messages as seen by the client.
    pub direction: String,
    /// Whether delivery is ordered.
    pub ordered: Option<bool>,
    /// Maximum retransmission time (milliseconds).
    pub max_packet_life_time: Option<i32>,
    /// Maximum number of retransmissions.
    pub max_retransmits: Option<i32>,
    /// Sub-protocol.
    pub protocol: Option<String>,
    /// Whether messages are compressed with zlib.
    pub compress: Option<bool>,
    /// Headers the server adds to messages (JSON texts).
    pub header: Option<Vec<String>>,
}

/// Labels that Sora uses itself (without the leading `#`).
pub open spec fn is_reserved_label(s: Seq<char>) -> bool {
    s == "signaling"@ || s == "stats"@ || s == "push"@ || s == "notify"@ || s == "rpc"@
}

/// The message refusing `label` after the labels `earlier`, if it is refused: it must
/// begin with `#`, have at most 32 characters, not name a label Sora uses itself, and
/// not repeat an earlier label.
pub open spec fn label_error(label: Seq<char>, earlier: Seq<Seq<char>>) -> Option<Seq<char>> {
    if !(label.len() > 0 && label[0] == '#') {
        Some("不正な --data-channel-label: "@ + label + " (# で始まるラベルを指定してください)"@)
    } else if label.len() > MAX_DATA_CHANNEL_LABEL_CHARS {
        Some("不正な --data-channel-label: "@ + label + " (# を含め 32 文字以内で指定してください)"@)
    } else if is_reserved_label(label.drop_first()) {
        Some("不正な --data-channel-label: "@ + label + " (Sora が内部で使用するラベルと衝突します)"@)
    } else if earlier.contains(label) {
        Some("重複する --data-channel-label: "@ + label)
    } else {
        None
    }
}

/// The message refusing the first refused label of `labels`, if any.
pub open spec fn first_label_error(labels: Seq<Seq<char>>) -> Option<Seq<char>>
    decreases labels.len(),
{
    if labels.len() == 0 {
        None
    } else {
        match first_label_error(labels.drop_last()) {
            Some(m) => Some(m),
            None => label_error(labels.last(), labels.drop_last()),
        }
    }
}

/// The views of a list of strings.
pub open spec fn string_views(l: Seq<String>) -> Seq<Seq<char>> {
    l.map_values(|s: String| s@)
}

/// Whether `c` is the DataChannel created for `label`: bidirectional, with every other
/// setting left to the server.
pub open spec fn is_default_channel(c: ConnectDataChannel, label: Seq<char>) -> bool {
    &&& c.label@ == label
    &&& c.direction@ == "sendrecv"@
    &&& c.ordered is None
    &&& c.max_packet_life_time is None
    &&& c.max_retransmits is None
    &&& c.protocol is None
    &&& c.compress is None
    &&& c.header is None
}

fn is_reserved(s: &str) -> (r: bool)
    ensures
        r == is_reserved_label(s@),
{
    str_eq(s, "signaling") || str_eq(s, "stats") || str_eq(s, "push") || str_eq(s, "notify") || str_eq(s, "rpc")
}

fn contains_label(seen: &Vec<String>, label: &str) -> (r: bool)
    ensures
        r == string_views(seen@).contains(label@),
{
    let mut i: usize = 0;
    while i < seen.len()
        invariant
            i <= seen@.len(),
            forall|j: int| 0 <= j < i ==> seen@[j]@ != label@,
        decreases seen@.len() - i,
    {
        if str_eq(seen[i].as_str(), label) {
            assert(string_views(seen@)[i as int] == label@);
            return true;
        }
        i = i + 1;
    }
    proof {
        if string_views(seen@).contains(label@) {
            let j = choose|j: int| 0 <= j < string_views(seen@).len() && string_views(seen@)[j] == label@;
            assert(seen@[j]@ == label@);
        }
    }
    false
}

fn refused(label: &String, before: &str, after: &str) -> (r: String)
    ensures
        r@ == before@ + label@ + after@,
{
    let mut message = before.to_owned();
    message.append(label.as_str());
    message.append(after);
    message
}

/// Converts the labels of `--data-channel-label` to the DataChannels to create on connect.
///
/// A label must begin with `#`, be at most 32 characters long (`#` included), and not
/// collide with the labels Sora uses itself (`signaling` / `stats` / `push` / `notify` /
/// `rpc`); no label may repeat. Ordering, compression, headers and the like are left to
/// the server's defaults.
pub fn build_data_channels(labels: &[String]) -> (r: Result<Vec<ConnectDataChannel>, String>)
    ensures
        match first_label_error(string_views(labels@)) {
            Some(m) => r matches Err(e) && e@ == m,
            None => r matches Ok(channels) && channels@.len() == labels@.len()
                && forall|i: int| 0 <= i < labels@.len() ==> is_default_channel(#[trigger] channels@[i], labels@[i]@),
        },
{
    proof {
        reveal_strlit("sendrecv");
    }
    let mut channels: Vec<ConnectDataChannel> = Vec::new();
    let mut seen: Vec<String> = Vec::new();
    let mut i: usize = 0;
    while i < labels.len()
        invariant
            i <= labels@.len(),
            first_label_error(string_views(labels@).take(i as int)) is None,
            string_views(seen@) == string_views(labels@).take(i as int),
            channels@.len() == i,
            forall|j: int| 0 <= j < i ==> is_default_channel(#[trigger] channels@[j], labels@[j]@),
        decreases labels@.len() - i,
    {
        let label = &labels[i];
        let ghost views = string_views(labels@);
        proof {
            assert(views.take(i + 1).drop_last() =~= views.take(i as int));
            assert(views.take(i + 1).last() == label@);
            lemma_first_label_error_prefix(views, (i + 1) as nat);
        }
        let n = label.as_str().unicode_len();
        if !(n > 0 && label.as_str().get_char(0) == '#') {
            return Err(refused(label, "不正な --data-channel-label: ", " (# で始まるラベルを指定してください)"));
        }
        if n > MAX_DATA_CHANNEL_LABEL_CHARS {
            return Err(refused(label, "不正な --data-channel-label: ", " (# を含め 32 文字以内で指定してください)"));
        }
        let without_prefix = label.as_str().substring_char(1, n);
        assert(without_prefix@ =~= label@.drop_first());
        if is_reserved(without_prefix) {
            return Err(refused(label, "不正な --data-channel-label: ", " (Sora が内部で使用するラベルと衝突します)"));
        }
        if contains_label(&seen, label.as_str()) {
            let mut message = "重複する --data-channel-label: ".to_owned();
            message.append(label.as_str());
            return Err(message);
        }
        let ghost seen_before = string_views(seen@);
        seen.push(label.clone());
        assert(string_views(seen@) =~= seen_before.push(label@));
        channels.push(ConnectDataChannel {
            label: label.clone(),
            direction: "sendrecv".to_owned(),
            ordered: None,
            max_packet_life_time: None,
            max_retransmits: None,
            protocol: None,
            compress: None,
            header: None,
        });
        i = i + 1;
        assert(views.take(i as int) =~= seen_before.push(label@));
    }
    assert(string_views(labels@).take(i as int) =~= string_views(labels@));
    Ok(channels)
}

proof fn lemma_first_label_error_prefix(labels: Seq<Seq<char>>, k: nat)
    requires
        0 < k <= labels.len(),
    ensures
        first_label_error(labels.take(k as int)) is Some ==> first_label_error(labels) == first_label_error(labels.take(k as int)),
    decreases labels.len() - k,
{
    if k < labels.len() {
        lemma_first_label_error_prefix(labels, k + 1);
        assert(labels.take((k + 1) as int).drop_last() =~= labels.take(k as int));
    } else {
        assert(labels.take(k as int) =~= labels);
    }
}

/// The message refusing a `--client-id` / `--bundle-id` value, if it is refused: Sora wants
/// 1 to 255 bytes.
pub open spec fn opaque_id_error(value: Seq<char>, name: Seq<char>) -> Option<Seq<char>> {
    let bytes = vstd::utf8::encode_utf8(value).len();
    if bytes == 0 || bytes > 255 {
        Some("不正な "@ + name + ": "@ + value + " (1〜255 バイトで指定してください)"@)
    } else {
        None
    }
}

/// Checks a `--client-id` / `--bundle-id` value: Sora requires 1 to 255 bytes.
pub fn validate_opaque_id(value: &str, name: &str) -> (r: Result<(), String>)
    ensures
        match opaque_id_error(value@, name@) {
            Some(m) => r matches Err(e) && e@ == m,
            None => r is Ok,
        },
{
    let len = value.as_bytes().len();
    if len == 0 || len > 255 {
        let mut message = "不正な ".to_owned();
        message.append(name);
        message.append(": ");
        message.append(value);
        message.append(" (1〜255 バイトで指定してください)");
        return Err(message);
    }
    Ok(())
}

// ─── Forwarding filters ─────────────────────────────────────────────────────

#[verifier::external_type_specification]
#[verifier::external_body]
pub struct ExRawJsonOwned(nojson::RawJsonOwned);

/// A parsed `--forwarding-filter` document, with the text it was parsed from.
pub struct JsonDoc {
    text: String,
    raw: nojson::RawJsonOwned,
}

impl JsonDoc {
    /// The text the document was parsed from.
    pub closed spec fn text(&self) -> Seq<char> {
        self.text@
    }
}

/// A JSON error: where it lies (line and column, when known) and what nojson says of it.
#[derive(Debug, Clone)]
pub struct JsonFailure {
    pub location: Option<(usize, usize)>,
    pub detail: String,
}

/// The view of a JSON error.
pub struct JsonFailureView {
    pub location: Option<(usize, usize)>,
    pub detail: Seq<char>,
}

impl View for JsonFailure {
    type V = JsonFailureView;

    open spec fn view(&self) -> JsonFailureView {
        JsonFailureView { location: self.location, detail: self.detail@ }
    }
}

/// The error with which `nojson::RawJsonOwned::parse` refuses `text` as JSON, if it does.
pub uninterp spec fn json_parse_failure(text: Seq<char>) -> Option<JsonFailureView>;

/// Whether `RawJsonOwned::get_value_by_index(index)` finds a value in the JSON parsed from
/// `text` (the root is number 0).
pub uninterp spec fn json_has_value(text: Seq<char>, index: usize) -> bool;

/// What `RawJsonValue::to_array` gives on value `index`: the numbers of its elements, or the
/// error when it is not an array.
pub uninterp spec fn json_array(text: Seq<char>, index: usize) -> Result<Seq<usize>, JsonFailureView>;

/// What `RawJsonValue::to_member(name)` gives on value `index`: the number of the member, if
/// present, or the error when the value is not an object.
pub uninterp spec fn json_member(text: Seq<char>, index: usize, name: Seq<char>) -> Result<Option<usize>, JsonFailureView>;

/// What `String::try_from` gives on value `index`: the unquoted string, or the error when it
/// is not a string.
pub uninterp spec fn json_string(text: Seq<char>, index: usize) -> Result<Seq<char>, JsonFailureView>;

/// What `i32::try_from` gives on value `index`: the integer, or the error when it is not an
/// integer in range.
pub uninterp spec fn json_i32(text: Seq<char>, index: usize) -> Result<i32, JsonFailureView>;

/// The text of what `RawJsonValue::extract` gives on value `index`.
pub uninterp spec fn json_raw(text: Seq<char>, index: usize) -> Seq<char>;

/// The error `RawJsonValue::invalid(reason)` makes on value `index`.
pub uninterp spec fn json_invalid(text: Seq<char>, index: usize, reason: Seq<char>) -> JsonFailureView;

/// Parses JSON text with `nojson::RawJsonOwned::parse`. On success the document keeps the
/// text, and its root value is number 0; on failure the error is nojson's (its location
/// computed by `JsonParseError::get_line_and_column_numbers`, its detail its `Display`).
#[verifier::external_body]
pub(crate) fn json_parse(text: &str) -> (r: Result<JsonDoc, JsonFailure>)
    ensures
        match r {
            Ok(doc) => doc.text() == text@ && json_parse_failure(text@) is None && json_has_value(text@, 0),
            Err(f) => json_parse_failure(text@) == Some(f@),
        },
{
    match nojson::RawJsonOwned::parse(text) {
        Ok(raw) => Ok(JsonDoc { text: text.to_owned(), raw }),
        Err(e) => Err(JsonFailure {
            location: e.get_line_and_column_numbers(text).map(|(l, c)| (l.get(), c.get())),
            detail: e.to_string(),
        }),
    }
}

/// `RawJsonValue::to_array` on value `index`: the numbers (`index()`) of its elements, which
/// are values of the document, or nojson's error when the value is not an array.
#[verifier::external_body]
fn json_to_array(doc: &JsonDoc, index: usize) -> (r: Result<Vec<usize>, JsonFailure>)
    requires
        json_has_value(doc.text(), index),
    ensures
        match r {
            Ok(items) => json_array(doc.text(), index) == Ok::<Seq<usize>, JsonFailureView>(items@)
                && forall|k: int| 0 <= k < items@.len() ==> json_has_value(doc.text(), #[trigger] items@[k]),
            Err(f) => json_array(doc.text(), index) == Err::<Seq<usize>, JsonFailureView>(f@),
        },
{
    let value = doc.raw.get_value_by_index(index).expect("the index of a value of this document");
    match value.to_array() {
        Ok(items) => Ok(items.map(|item| item.index()).collect()),
        Err(e) => Err(JsonFailure {
            location: e.get_line_and_column_numbers(&doc.text).map(|(l, c)| (l.get(), c.get())),
            detail: e.to_string(),
        }),
    }
}

/// `RawJsonValue::to_member(name)` on value `index`, then `RawJsonMember::optional`: the
/// number of the member, if present, or nojson's error when the value is not an object.
#[verifier::external_body]
fn json_to_member(doc: &JsonDoc, index: usize, name: &str) -> (r: Result<Option<usize>, JsonFailure>)
    requires
        json_has_value(doc.text(), index),
    ensures
        match r {
            Ok(m) => json_member(doc.text(), index, name@) == Ok::<Option<usize>, JsonFailureView>(m)
                && (m matches Some(v) ==> json_has_value(doc.text(), v)),
            Err(f) => json_member(doc.text(), index, name@) == Err::<Option<usize>, JsonFailureView>(f@),
        },
{
    let value = doc.raw.get_value_by_index(index).expect("the index of a value of this document");
    match value.to_member(name) {
        Ok(member) => Ok(member.optional().map(|v| v.index())),
        Err(e) => Err(JsonFailure {
            location: e.get_line_and_column_numbers(&doc.text).map(|(l, c)| (l.get(), c.get())),
            detail: e.to_string(),
        }),
    }
}

/// `String::try_from` on value `index`: the unquoted string, or nojson's error.
#[verifier::external_body]
fn json_to_string(doc: &JsonDoc, index: usize) -> (r: Result<String, JsonFailure>)
    requires
        json_has_value(doc.text(), index),
    ensures
        match r {
            Ok(s) => json_string(doc.text(), index) == Ok::<Seq<char>, JsonFailureView>(s@),
            Err(f) => json_string(doc.text(), index) == Err::<Seq<char>, JsonFailureView>(f@),
        },
{
    let value = doc.raw.get_value_by_index(index).expect("the index of a value of this document");
    String::try_from(value).map_err(|e| JsonFailure {
        location: e.get_line_and_column_numbers(&doc.text).map(|(l, c)| (l.get(), c.get())),
        detail: e.to_string(),
    })
}

/// `i32::try_from` on value `index`: the integer, or nojson's error.
#[verifier::external_body]
fn json_to_i32(doc: &JsonDoc, index: usize) -> (r: Result<i32, JsonFailure>)
    requires
        json_has_value(doc.text(), index),
    ensures
        match r {
            Ok(n) => json_i32(doc.text(), index) == Ok::<i32, JsonFailureView>(n),
            Err(f) => json_i32(doc.text(), index) == Err::<i32, JsonFailureView>(f@),
        },
{
    let value = doc.raw.get_value_by_index(index).expect("the index of a value of this document");
    i32::try_from(value).map_err(|e| JsonFailure {
        location: e.get_line_and_column_numbers(&doc.text).map(|(l, c)| (l.get(), c.get())),
        detail: e.to_string(),
    })
}

/// `RawJsonValue::extract` on value `index`: the JSON text of the value.
#[verifier::external_body]
fn json_extract(doc: &JsonDoc, index: usize) -> (r: String)
    requires
        json_has_value(doc.text(), index),
    ensures
        r@ == json_raw(doc.text(), index),
{
    let value = doc.raw.get_value_by_index(index).expect("the index of a value of this document");
    value.extract().text().to_owned()
}

/// `RawJsonValue::invalid(reason)` on value `index`: nojson's error saying that the value is
/// invalid for `reason`.
#[verifier::external_body]
fn json_invalid_value(doc: &JsonDoc, index: usize, reason: String) -> (r: JsonFailure)
    requires
        json_has_value(doc.text(), index),
    ensures
        r@ == json_invalid(doc.text(), index, reason@),
{
    let value = doc.raw.get_value_by_index(index).expect("the index of a value of this document");
    let e = value.invalid(reason);
    JsonFailure {
        location: e.get_line_and_column_numbers(&doc.text).map(|(l, c)| (l.get(), c.get())),
        detail: e.to_string(),
    }
}

/// `RawJsonValue::to_member(name)` on value `index`, then `RawJsonMember::required`: the
/// number of the member, nojson's error when the value is not an object, or, when the member
/// is absent, the error `required` makes with `invalid` on the object.
#[verifier::external_body]
fn json_to_required_member(doc: &JsonDoc, index: usize, name: &str) -> (r: Result<usize, JsonFailure>)
    requires
        json_has_value(doc.text(), index),
    ensures
        match json_member(doc.text(), index, name@) {
            Ok(Some(v)) => r == Ok::<usize, JsonFailure>(v) && json_has_value(doc.text(), v),
            Ok(None) => r matches Err(f) && f@ == json_invalid(doc.text(), index, missing_reason(name@)),
            Err(e) => r matches Err(f) && f@ == e,
        },
{
    let value = doc.raw.get_value_by_index(index).expect("the index of a value of this document");
    let member = value.to_member(name).and_then(|m| m.required());
    member.map(|v| v.index()).map_err(|e| JsonFailure {
        location: e.get_line_and_column_numbers(&doc.text).map(|(l, c)| (l.get(), c.get())),
        detail: e.to_string(),
    })
}

/// The reason nojson gives for an absent required member.
pub open spec fn missing_reason(name: Seq<char>) -> Seq<char> {
    "required member '"@ + name + "' is missing"@
}

/// The location part of a JSON error message: ` (line:column)`, or nothing.
pub open spec fn location_text(location: Option<(usize, usize)>) -> Seq<char> {
    match location {
        Some((line, column)) => " ("@ + dec(line as nat) + ":"@ + dec(column as nat) + ")"@,
        None => Seq::empty(),
    }
}

/// The message for a JSON error in `--forwarding-filter`.
pub open spec fn json_error_text(f: JsonFailureView) -> Seq<char> {
    "--forwarding-filter の JSON が不正です"@ + location_text(f.location) + ": "@ + f.detail
}

/// Makes the message for a JSON error in `--forwarding-filter`: the location, when known,
/// then nojson's description.
pub fn json_error(f: &JsonFailure) -> (r: String)
    ensures
        r@ == json_error_text(f@),
{
    let mut message = "--forwarding-filter の JSON が不正です".to_owned();
    match f.location {
        Some((line, column)) => {
            message.append(" (");
            push_decimal(&mut message, line as u64);
            message.append(":");
            push_decimal(&mut message, column as u64);
            message.append(")");
        },
        None => {},
    }
    message.append(": ");
    message.append(f.detail.as_str());
    message
}

/// One rule of a forwarding filter: the connections whose `field` is (`is_in`) or is not
/// (`is_not_in`) one of `values`.
#[derive(Debug, Clone)]
pub struct ForwardingFilterRule {
    /// `connection_id`, `client_id` or `kind`.
    pub field: String,
    /// `is_in` or `is_not_in`.
    pub operator: String,
    pub values: Vec<String>,
}

/// The view of a forwarding filter rule.
pub struct ForwardingFilterRuleView {
    pub field: Seq<char>,
    pub operator: Seq<char>,
    pub values: Seq<Seq<char>>,
}

impl View for ForwardingFilterRule {
    type V = ForwardingFilterRuleView;

    open spec fn view(&self) -> ForwardingFilterRuleView {
        ForwardingFilterRuleView { field: self.field@, operator: self.operator@, values: string_views(self.values@) }
    }
}

/// A forwarding filter of Sora's connect message.
#[derive(Debug, Clone)]
pub struct ForwardingFilter {
    pub name: Option<String>,
    pub priority: Option<i32>,
    /// `block` or `allow`.
    pub action: Option<String>,
    /// Groups of rules: the rules of a group all hold (AND), and one of the groups holds (OR).
    pub rules: Vec<Vec<ForwardingFilterRule>>,
    pub version: Option<String>,
    /// Any JSON value, as its text.
    pub metadata: Option<String>,
}

/// The view of a forwarding filter.
pub struct ForwardingFilterView {
    pub name: Option<Seq<char>>,
    pub priority: Option<i32>,
    pub action: Option<Seq<char>>,
    pub rules: Seq<Seq<ForwardingFilterRuleView>>,
    pub version: Option<Seq<char>>,
    pub metadata: Option<Seq<char>>,
}

/// The view of an optional string.
pub open spec fn opt_string_view(o: Option<String>) -> Option<Seq<char>> {
    match o {
        Some(s) => Some(s@),
        None => None,
    }
}

/// The views of a group of rules.
pub open spec fn rule_views(group: Seq<ForwardingFilterRule>) -> Seq<ForwardingFilterRuleView> {
    group.map_values(|r: ForwardingFilterRule| r@)
}

/// The views of the groups of rules.
pub open spec fn group_views(groups: Seq<Vec<ForwardingFilterRule>>) -> Seq<Seq<ForwardingFilterRuleView>> {
    groups.map_values(|g: Vec<ForwardingFilterRule>| rule_views(g@))
}

/// The views of a list of filters.
pub open spec fn filter_views(filters: Seq<ForwardingFilter>) -> Seq<ForwardingFilterView> {
    filters.map_values(|f: ForwardingFilter| f@)
}

impl View for ForwardingFilter {
    type V = ForwardingFilterView;

    open spec fn view(&self) -> ForwardingFilterView {
        ForwardingFilterView {
            name: opt_string_view(self.name),
            priority: self.priority,
            action: opt_string_view(self.action),
            rules: group_views(self.rules@),
            version: opt_string_view(self.version),
            metadata: opt_string_view(self.metadata),
        }
    }
}

/// What parsing gives: a value, or the message refusing the text.
pub type Parsed<A> = Result<A, Seq<char>>;

/// `f` applied to each of `items` in turn, stopping at the first refusal.
pub open spec fn parse_each<A>(items: Seq<usize>, f: spec_fn(usize) -> Parsed<A>) -> Parsed<Seq<A>>
    decreases items.len(),
{
    if items.len() == 0 {
        Ok(Seq::empty())
    } else {
        match parse_each(items.drop_last(), f) {
            Err(m) => Err(m),
            Ok(prefix) => match f(items.last()) {
                Err(m) => Err(m),
                Ok(a) => Ok(prefix.push(a)),
            },
        }
    }
}

/// Once a prefix of `items` is refused, all of `items` is refused with the same message.
pub proof fn lemma_parse_each_refused<A>(items: Seq<usize>, f: spec_fn(usize) -> Parsed<A>, k: nat)
    requires
        k <= items.len(),
        parse_each(items.take(k as int), f) is Err,
    ensures
        parse_each(items, f) == parse_each(items.take(k as int), f),
    decreases items.len() - k,
{
    if k < items.len() {
        assert(items.take((k + 1) as int).drop_last() =~= items.take(k as int));
        lemma_parse_each_refused(items, f, k + 1);
    } else {
        assert(items.take(k as int) =~= items);
    }
}

/// Member `name` of object `index`, if present.
pub open spec fn spec_optional_member(t: Seq<char>, index: usize, name: Seq<char>) -> Parsed<Option<usize>> {
    match json_member(t, index, name) {
        Ok(m) => Ok(m),
        Err(f) => Err(json_error_text(f)),
    }
}

/// Member `name` of object `index`, which must be present.
pub open spec fn spec_required_member(t: Seq<char>, index: usize, name: Seq<char>) -> Parsed<usize> {
    match json_member(t, index, name) {
        Ok(Some(v)) => Ok(v),
        Ok(None) => Err(json_error_text(json_invalid(t, index, missing_reason(name)))),
        Err(f) => Err(json_error_text(f)),
    }
}

/// The string value `index`.
pub open spec fn spec_to_string(t: Seq<char>, index: usize) -> Parsed<Seq<char>> {
    match json_string(t, index) {
        Ok(s) => Ok(s),
        Err(f) => Err(json_error_text(f)),
    }
}

/// The string member `name` of object `index`, if present.
pub open spec fn spec_optional_string(t: Seq<char>, index: usize, name: Seq<char>) -> Parsed<Option<Seq<char>>> {
    match spec_optional_member(t, index, name) {
        Err(m) => Err(m),
        Ok(None) => Ok(None),
        Ok(Some(v)) => match spec_to_string(t, v) {
            Err(m) => Err(m),
            Ok(s) => Ok(Some(s)),
        },
    }
}

/// The integer member `name` of object `index`, if present.
pub open spec fn spec_optional_integer(t: Seq<char>, index: usize, name: Seq<char>) -> Parsed<Option<i32>> {
    match spec_optional_member(t, index, name) {
        Err(m) => Err(m),
        Ok(None) => Ok(None),
        Ok(Some(v)) => match json_i32(t, v) {
            Err(f) => Err(json_error_text(f)),
            Ok(n) => Ok(Some(n)),
        },
    }
}

/// `items` joined with `sep` between them.
pub open spec fn join(items: Seq<Seq<char>>, sep: Seq<char>) -> Seq<char>
    decreases items.len(),
{
    if items.len() == 0 {
        Seq::empty()
    } else if items.len() == 1 {
        items[0]
    } else {
        join(items.drop_last(), sep) + sep + items.last()
    }
}

/// The reason a value of member `name` outside `candidates` is refused.
pub open spec fn enum_reason(name: Seq<char>, candidates: Seq<Seq<char>>, given: Seq<char>) -> Seq<char> {
    "`"@ + name + "` は "@ + join(candidates, " / "@) + " のいずれかを指定してください (指定値: "@ + given + ")"@
}

/// The string value `index` of member `name`, which must be one of `candidates`.
pub open spec fn spec_check_enum(t: Seq<char>, index: usize, name: Seq<char>, candidates: Seq<Seq<char>>) -> Parsed<Seq<char>> {
    match spec_to_string(t, index) {
        Err(m) => Err(m),
        Ok(s) => if candidates.contains(s) {
            Ok(s)
        } else {
            Err(json_error_text(json_invalid(t, index, enum_reason(name, candidates, s))))
        },
    }
}

/// The enumerated member `name` of object `index`, if present.
pub open spec fn spec_optional_enum(t: Seq<char>, index: usize, name: Seq<char>, candidates: Seq<Seq<char>>) -> Parsed<Option<Seq<char>>> {
    match spec_optional_member(t, index, name) {
        Err(m) => Err(m),
        Ok(None) => Ok(None),
        Ok(Some(v)) => match spec_check_enum(t, v, name, candidates) {
            Err(m) => Err(m),
            Ok(s) => Ok(Some(s)),
        },
    }
}

/// The enumerated member `name` of object `index`, which must be present.
pub open spec fn spec_required_enum(t: Seq<char>, index: usize, name: Seq<char>, candidates: Seq<Seq<char>>) -> Parsed<Seq<char>> {
    match spec_required_member(t, index, name) {
        Err(m) => Err(m),
        Ok(v) => spec_check_enum(t, v, name, candidates),
    }
}

/// The values Sora accepts for a rule's `field`.
pub open spec fn field_candidates() -> Seq<Seq<char>> {
    seq!["connection_id"@, "client_id"@, "kind"@]
}

/// The values Sora accepts for a rule's `operator`.
pub open spec fn operator_candidates() -> Seq<Seq<char>> {
    seq!["is_in"@, "is_not_in"@]
}

/// The values Sora accepts for a filter's `action`.
pub open spec fn action_candidates() -> Seq<Seq<char>> {
    seq!["block"@, "allow"@]
}

/// Reads a string value.
pub open spec fn string_parser(t: Seq<char>) -> spec_fn(usize) -> Parsed<Seq<char>> {
    |i: usize| spec_to_string(t, i)
}

/// One rule: `field` and `operator`, required and known, and `values`, a required array of
/// strings.
pub open spec fn spec_rule(t: Seq<char>, v: usize) -> Parsed<ForwardingFilterRuleView> {
    match spec_required_enum(t, v, "field"@, field_candidates()) {
        Err(m) => Err(m),
        Ok(field) => match spec_required_enum(t, v, "operator"@, operator_candidates()) {
            Err(m) => Err(m),
            Ok(operator) => match spec_required_member(t, v, "values"@) {
                Err(m) => Err(m),
                Ok(list) => match json_array(t, list) {
                    Err(f) => Err(json_invalid(t, v, f.detail).detail),
                    Ok(items) => match parse_each(items, string_parser(t)) {
                        Err(m) => Err(m),
                        Ok(values) => Ok(ForwardingFilterRuleView { field, operator, values }),
                    },
                },
            },
        },
    }
}

/// Reads a rule.
pub open spec fn rule_parser(t: Seq<char>) -> spec_fn(usize) -> Parsed<ForwardingFilterRuleView> {
    |i: usize| spec_rule(t, i)
}

/// A group of rules: an array of rules.
pub open spec fn spec_rule_group(t: Seq<char>, g: usize) -> Parsed<Seq<ForwardingFilterRuleView>> {
    match json_array(t, g) {
        Err(f) => Err(json_invalid(t, g, f.detail).detail),
        Ok(items) => parse_each(items, rule_parser(t)),
    }
}

/// Reads a group of rules.
pub open spec fn group_parser(t: Seq<char>) -> spec_fn(usize) -> Parsed<Seq<ForwardingFilterRuleView>> {
    |i: usize| spec_rule_group(t, i)
}

/// The `rules` of a filter: a required array of groups.
pub open spec fn spec_filter_rules(t: Seq<char>, filter: usize) -> Parsed<Seq<Seq<ForwardingFilterRuleView>>> {
    match spec_required_member(t, filter, "rules"@) {
        Err(m) => Err(m),
        Ok(r) => match json_array(t, r) {
            Err(f) => Err(json_invalid(t, filter, f.detail).detail),
            Ok(groups) => parse_each(groups, group_parser(t)),
        },
    }
}

/// The `metadata` of a filter, as the JSON text it has, if present.
pub open spec fn spec_metadata(t: Seq<char>, v: usize) -> Parsed<Option<Seq<char>>> {
    match spec_optional_member(t, v, "metadata"@) {
        Err(m) => Err(m),
        Ok(None) => Ok(None),
        Ok(Some(m)) => Ok(Some(json_raw(t, m))),
    }
}

/// One filter, its members read in the order `name`, `priority`, `action`, `rules`,
/// `version`, `metadata`; only `rules` is required.
pub open spec fn spec_filter(t: Seq<char>, v: usize) -> Parsed<ForwardingFilterView> {
    match spec_optional_string(t, v, "name"@) {
        Err(m) => Err(m),
        Ok(name) => match spec_optional_integer(t, v, "priority"@) {
            Err(m) => Err(m),
            Ok(priority) => match spec_optional_enum(t, v, "action"@, action_candidates()) {
                Err(m) => Err(m),
                Ok(action) => match spec_filter_rules(t, v) {
                    Err(m) => Err(m),
                    Ok(rules) => match spec_optional_string(t, v, "version"@) {
                        Err(m) => Err(m),
                        Ok(version) => match spec_metadata(t, v) {
                            Err(m) => Err(m),
                            Ok(metadata) => Ok(ForwardingFilterView { name, priority, action, rules, version, metadata }),
                        },
                    },
                },
            },
        },
    }
}

/// Reads a filter.
pub open spec fn filter_parser(t: Seq<char>) -> spec_fn(usize) -> Parsed<ForwardingFilterView> {
    |i: usize| spec_filter(t, i)
}

/// The filters of a `--forwarding-filter` text: a JSON array of filters.
pub open spec fn spec_parse_forwarding_filters(t: Seq<char>) -> Parsed<Seq<ForwardingFilterView>> {
    match json_parse_failure(t) {
        Some(f) => Err(json_error_text(f)),
        None => match json_array(t, 0) {
            Err(f) => Err(json_error_text(f)),
            Ok(items) => parse_each(items, filter_parser(t)),
        },
    }
}

/// The views of a list of string slices.
pub open spec fn str_views(l: Seq<&str>) -> Seq<Seq<char>> {
    l.map_values(|s: &str| s@)
}

fn optional_member(doc: &JsonDoc, index: usize, name: &str) -> (r: Result<Option<usize>, String>)
    requires
        json_has_value(doc.text(), index),
    ensures
        match spec_optional_member(doc.text(), index, name@) {
            Ok(m) => r == Ok::<Option<usize>, String>(m) && (m matches Some(v) ==> json_has_value(doc.text(), v)),
            Err(msg) => r matches Err(e) && e@ == msg,
        },
{
    match json_to_member(doc, index, name) {
        Ok(m) => Ok(m),
        Err(f) => Err(json_error(&f)),
    }
}

fn required_member(doc: &JsonDoc, index: usize, name: &str) -> (r: Result<usize, String>)
    requires
        json_has_value(doc.text(), index),
    ensures
        match spec_required_member(doc.text(), index, name@) {
            Ok(v) => r == Ok::<usize, String>(v) && json_has_value(doc.text(), v),
            Err(msg) => r matches Err(e) && e@ == msg,
        },
{
    match json_to_required_member(doc, index, name) {
        Ok(v) => Ok(v),
        Err(f) => Err(json_error(&f)),
    }
}

fn to_string(doc: &JsonDoc, index: usize) -> (r: Result<String, String>)
    requires
        json_has_value(doc.text(), index),
    ensures
        match spec_to_string(doc.text(), index) {
            Ok(s) => r matches Ok(x) && x@ == s,
            Err(msg) => r matches Err(e) && e@ == msg,
        },
{
    match json_to_string(doc, index) {
        Ok(s) => Ok(s),
        Err(f) => Err(json_error(&f)),
    }
}

fn optional_string(doc: &JsonDoc, index: usize, name: &str) -> (r: Result<Option<String>, String>)
    requires
        json_has_value(doc.text(), index),
    ensures
        match spec_optional_string(doc.text(), index, name@) {
            Ok(s) => r matches Ok(x) && opt_string_view(x) == s,
            Err(msg) => r matches Err(e) && e@ == msg,
        },
{
    match optional_member(doc, index, name)? {
        None => Ok(None),
        Some(v) => Ok(Some(to_string(doc, v)?)),
    }
}

fn optional_integer(doc: &JsonDoc, index: usize, name: &str) -> (r: Result<Option<i32>, String>)
    requires
        json_has_value(doc.text(), index),
    ensures
        match spec_optional_integer(doc.text(), index, name@) {
            Ok(n) => r == Ok::<Option<i32>, String>(n),
            Err(msg) => r matches Err(e) && e@ == msg,
        },
{
    match optional_member(doc, index, name)? {
        None => Ok(None),
        Some(v) => match json_to_i32(doc, v) {
            Ok(n) => Ok(Some(n)),
            Err(f) => Err(json_error(&f)),
        },
    }
}

fn join_candidates(candidates: &[&str]) -> (r: String)
    ensures
        r@ == join(str_views(candidates@), " / "@),
{
    proof {
        reveal_strlit("");
    }
    let ghost views = str_views(candidates@);
    let mut out = "".to_owned();
    let mut i: usize = 0;
    while i < candidates.len()
        invariant
            i <= candidates@.len(),
            views == str_views(candidates@),
            out@ == join(views.take(i as int), " / "@),
        decreases candidates@.len() - i,
    {
        proof {
            assert(views.take(i + 1).drop_last() =~= views.take(i as int));
            assert(views.take(i + 1).last() == candidates@[i as int]@);
            if i == 0 {
                assert(views.take(0) =~= Seq::<Seq<char>>::empty());
            }
        }
        if i > 0 {
            out.append(" / ");
        }
        out.append(candidates[i]);
        i = i + 1;
    }
    assert(views.take(i as int) =~= views);
    out
}

fn contains_candidate(candidates: &[&str], s: &str) -> (r: bool)
    ensures
        r == str_views(candidates@).contains(s@),
{
    let mut i: usize = 0;
    while i < candidates.len()
        invariant
            i <= candidates@.len(),
            forall|j: int| 0 <= j < i ==> candidates@[j]@ != s@,
        decreases candidates@.len() - i,
    {
        if str_eq(candidates[i], s) {
            assert(str_views(candidates@)[i as int] == s@);
            return true;
        }
        i = i + 1;
    }
    proof {
        if str_views(candidates@).contains(s@) {
            let j = choose|j: int| 0 <= j < str_views(candidates@).len() && str_views(candidates@)[j] == s@;
            assert(candidates@[j]@ == s@);
        }
    }
    false
}

fn check_enum(doc: &JsonDoc, index: usize, name: &str, candidates: &[&str]) -> (r: Result<String, String>)
    requires
        json_has_value(doc.text(), index),
    ensures
        match spec_check_enum(doc.text(), index, name@, str_views(candidates@)) {
            Ok(s) => r matches Ok(x) && x@ == s,
            Err(msg) => r matches Err(e) && e@ == msg,
        },
{
    let parsed = to_string(doc, index)?;
    if !contains_candidate(candidates, parsed.as_str()) {
        let mut reason = "`".to_owned();
        reason.append(name);
        reason.append("` は ");
        let joined = join_candidates(candidates);
        reason.append(joined.as_str());
        reason.append(" のいずれかを指定してください (指定値: ");
        reason.append(parsed.as_str());
        reason.append(")");
        let f = json_invalid_value(doc, index, reason);
        return Err(json_error(&f));
    }
    Ok(parsed)
}

fn optional_enum(doc: &JsonDoc, index: usize, name: &str, candidates: &[&str]) -> (r: Result<Option<String>, String>)
    requires
        json_has_value(doc.text(), index),
    ensures
        match spec_optional_enum(doc.text(), index, name@, str_views(candidates@)) {
            Ok(s) => r matches Ok(x) && opt_string_view(x) == s,
            Err(msg) => r matches Err(e) && e@ == msg,
        },
{
    match optional_member(doc, index, name)? {
        None => Ok(None),
        Some(v) => Ok(Some(check_enum(doc, v, name, candidates)?)),
    }
}

fn required_enum(doc: &JsonDoc, index: usize, name: &str, candidates: &[&str]) -> (r: Result<String, String>)
    requires
        json_has_value(doc.text(), index),
    ensures
        match spec_required_enum(doc.text(), index, name@, str_views(candidates@)) {
            Ok(s) => r matches Ok(x) && x@ == s,
            Err(msg) => r matches Err(e) && e@ == msg,
        },
{
    let v = required_member(doc, index, name)?;
    check_enum(doc, v, name, candidates)
}

fn parse_strings(doc: &JsonDoc, items: &Vec<usize>) -> (r: Result<Vec<String>, String>)
    requires
        forall|k: int| 0 <= k < items@.len() ==> json_has_value(doc.text(), #[trigger] items@[k]),
    ensures
        match parse_each(items@, string_parser(doc.text())) {
            Ok(vs) => r matches Ok(x) && string_views(x@) == vs,
            Err(msg) => r matches Err(e) && e@ == msg,
        },
{
    let ghost p = string_parser(doc.text());
    let mut out: Vec<String> = Vec::new();
    let mut i: usize = 0;
    assert(items@.take(0) =~= Seq::<usize>::empty());
    assert(string_views(out@) =~= Seq::<Seq<char>>::empty());
    while i < items.len()
        invariant
            i <= items@.len(),
            out@.len() == i,
            p == string_parser(doc.text()),
            forall|k: int| 0 <= k < items@.len() ==> json_has_value(doc.text(), #[trigger] items@[k]),
            parse_each(items@.take(i as int), p) == Ok::<Seq<Seq<char>>, Seq<char>>(string_views(out@)),
        decreases items@.len() - i,
    {
        proof {
            assert(items@.take(i + 1).drop_last() =~= items@.take(i as int));
            assert(items@.take(i + 1).last() == items@[i as int]);
        }
        let value = match to_string(doc, items[i]) {
            Ok(v) => v,
            Err(e) => {
                proof {
                    lemma_parse_each_refused(items@, p, (i + 1) as nat);
                }
                return Err(e);
            },
        };
        let ghost before = out@;
        let ghost v = value@;
        out.push(value);
        assert(string_views(out@) =~= string_views(before).push(v));
        i = i + 1;
    }
    assert(items@.take(i as int) =~= items@);
    Ok(out)
}

fn parse_filter_rule(doc: &JsonDoc, index: usize) -> (r: Result<ForwardingFilterRule, String>)
    requires
        json_has_value(doc.text(), index),
    ensures
        match spec_rule(doc.text(), index) {
            Ok(rule) => r matches Ok(x) && x@ == rule,
            Err(msg) => r matches Err(e) && e@ == msg,
        },
{
    let fields: [&str; 3] = ["connection_id", "client_id", "kind"];
    assert(str_views(fields@) =~= field_candidates());
    let field = required_enum(doc, index, "field", &fields)?;
    let operators: [&str; 2] = ["is_in", "is_not_in"];
    assert(str_views(operators@) =~= operator_candidates());
    let operator = required_enum(doc, index, "operator", &operators)?;
    let list = required_member(doc, index, "values")?;
    let items = match json_to_array(doc, list) {
        Ok(items) => items,
        Err(f) => return Err(json_invalid_value(doc, index, f.detail).detail),
    };
    let values = parse_strings(doc, &items)?;
    Ok(ForwardingFilterRule { field, operator, values })
}

fn parse_rule_group(doc: &JsonDoc, g: usize) -> (r: Result<Vec<ForwardingFilterRule>, String>)
    requires
        json_has_value(doc.text(), g),
    ensures
        match spec_rule_group(doc.text(), g) {
            Ok(rules) => r matches Ok(x) && rule_views(x@) == rules,
            Err(msg) => r matches Err(e) && e@ == msg,
        },
{
    let items = match json_to_array(doc, g) {
        Ok(items) => items,
        Err(f) => return Err(json_invalid_value(doc, g, f.detail).detail),
    };
    let ghost p = rule_parser(doc.text());
    let mut out: Vec<ForwardingFilterRule> = Vec::new();
    let mut i: usize = 0;
    assert(items@.take(0) =~= Seq::<usize>::empty());
    assert(rule_views(out@) =~= Seq::<ForwardingFilterRuleView>::empty());
    while i < items.len()
        invariant
            i <= items@.len(),
            out@.len() == i,
            p == rule_parser(doc.text()),
            json_array(doc.text(), g) == Ok::<Seq<usize>, JsonFailureView>(items@),
            forall|k: int| 0 <= k < items@.len() ==> json_has_value(doc.text(), #[trigger] items@[k]),
            parse_each(items@.take(i as int), p) == Ok::<Seq<ForwardingFilterRuleView>, Seq<char>>(rule_views(out@)),
        decreases items@.len() - i,
    {
        proof {
            assert(items@.take(i + 1).drop_last() =~= items@.take(i as int));
            assert(items@.take(i + 1).last() == items@[i as int]);
        }
        let rule = match parse_filter_rule(doc, items[i]) {
            Ok(rule) => rule,
            Err(e) => {
                proof {
                    lemma_parse_each_refused(items@, p, (i + 1) as nat);
                }
                return Err(e);
            },
        };
        let ghost before = out@;
        let ghost v = rule@;
        out.push(rule);
        assert(rule_views(out@) =~= rule_views(before).push(v));
        i = i + 1;
    }
    assert(items@.take(i as int) =~= items@);
    Ok(out)
}

fn parse_filter_rules(doc: &JsonDoc, filter: usize) -> (r: Result<Vec<Vec<ForwardingFilterRule>>, String>)
    requires
        json_has_value(doc.text(), filter),
    ensures
        match spec_filter_rules(doc.text(), filter) {
            Ok(groups) => r matches Ok(x) && group_views(x@) == groups,
            Err(msg) => r matches Err(e) && e@ == msg,
        },
{
    let list = required_member(doc, filter, "rules")?;
    let items = match json_to_array(doc, list) {
        Ok(items) => items,
        Err(f) => return Err(json_invalid_value(doc, filter, f.detail).detail),
    };
    let ghost p = group_parser(doc.text());
    let mut out: Vec<Vec<ForwardingFilterRule>> = Vec::new();
    let mut i: usize = 0;
    assert(items@.take(0) =~= Seq::<usize>::empty());
    assert(group_views(out@) =~= Seq::<Seq<ForwardingFilterRuleView>>::empty());
    while i < items.len()
        invariant
            i <= items@.len(),
            out@.len() == i,
            p == group_parser(doc.text()),
            spec_required_member(doc.text(), filter, "rules"@) == Ok::<usize, Seq<char>>(list),
            json_array(doc.text(), list) == Ok::<Seq<usize>, JsonFailureView>(items@),
            forall|k: int| 0 <= k < items@.len() ==> json_has_value(doc.text(), #[trigger] items@[k]),
            parse_each(items@.take(i as int), p) == Ok::<Seq<Seq<ForwardingFilterRuleView>>, Seq<char>>(group_views(out@)),
        decreases items@.len() - i,
    {
        proof {
            assert(items@.take(i + 1).drop_last() =~= items@.take(i as int));
            assert(items@.take(i + 1).last() == items@[i as int]);
        }
        let group = match parse_rule_group(doc, items[i]) {
            Ok(group) => group,
            Err(e) => {
                proof {
                    lemma_parse_each_refused(items@, p, (i + 1) as nat);
                }
                return Err(e);
            },
        };
        let ghost before = out@;
        let ghost v = rule_views(group@);
        out.push(group);
        assert(group_views(out@) =~= group_views(before).push(v));
        i = i + 1;
    }
    assert(items@.take(i as int) =~= items@);
    Ok(out)
}

fn parse_forwarding_filter(doc: &JsonDoc, index: usize) -> (r: Result<ForwardingFilter, String>)
    requires
        json_has_value(doc.text(), index),
    ensures
        match spec_filter(doc.text(), index) {
            Ok(filter) => r matches Ok(x) && x@ == filter,
            Err(msg) => r matches Err(e) && e@ == msg,
        },
{
    let name = optional_string(doc, index, "name")?;
    let priority = optional_integer(doc, index, "priority")?;
    let actions: [&str; 2] = ["block", "allow"];
    assert(str_views(actions@) =~= action_candidates());
    let action = optional_enum(doc, index, "action", &actions)?;
    let rules = parse_filter_rules(doc, index)?;
    let version = optional_string(doc, index, "version")?;
    let metadata = match optional_member(doc, index, "metadata")? {
        Some(v) => Some(json_extract(doc, v)),
        None => None,
    };
    Ok(ForwardingFilter { name, priority, action, rules, version, metadata })
}

/// Converts the JSON array of `--forwarding-filter` to the forwarding filters of the connect
/// message.
///
/// The JSON has the shape of the connect message's `forwarding_filters`: an array of
/// filters, each with a required `rules` (an array of groups, each an array of rules with
/// `field`, `operator` and `values`) and optional `name`, `priority`, `action`, `version`
/// and `metadata`. The first error found, in document order, is returned as a message.
pub fn parse_forwarding_filters(text: &str) -> (r: Result<Vec<ForwardingFilter>, String>)
    ensures
        match spec_parse_forwarding_filters(text@) {
            Ok(filters) => r matches Ok(x) && filter_views(x@) == filters,
            Err(msg) => r matches Err(e) && e@ == msg,
        },
{
    let doc = match json_parse(text) {
        Ok(doc) => doc,
        Err(f) => return Err(json_error(&f)),
    };
    let items = match json_to_array(&doc, 0) {
        Ok(items) => items,
        Err(f) => return Err(json_error(&f)),
    };
    let ghost t = doc.text();
    let ghost p = filter_parser(t);
    let mut out: Vec<ForwardingFilter> = Vec::new();
    let mut i: usize = 0;
    assert(items@.take(0) =~= Seq::<usize>::empty());
    assert(filter_views(out@) =~= Seq::<ForwardingFilterView>::empty());
    while i < items.len()
        invariant
            i <= items@.len(),
            out@.len() == i,
            t == doc.text(),
            t == text@,
            p == filter_parser(t),
            json_array(t, 0) == Ok::<Seq<usize>, JsonFailureView>(items@),
            json_parse_failure(t) is None,
            forall|k: int| 0 <= k < items@.len() ==> json_has_value(t, #[trigger] items@[k]),
            parse_each(items@.take(i as int), p) == Ok::<Seq<ForwardingFilterView>, Seq<char>>(filter_views(out@)),
        decreases items@.len() - i,
    {
        proof {
            assert(items@.take(i + 1).drop_last() =~= items@.take(i as int));
            assert(items@.take(i + 1).last() == items@[i as int]);
        }
        let filter = match parse_forwarding_filter(&doc, items[i]) {
            Ok(filter) => filter,
            Err(e) => {
                proof {
                    lemma_parse_each_refused(items@, p, (i + 1) as nat);
                }
                return Err(e);
            },
        };
        let ghost before = out@;
        let ghost v = filter@;
        out.push(filter);
        assert(filter_views(out@) =~= filter_views(before).push(v));
        i = i + 1;
    }
    assert(items@.take(i as int) =~= items@);
    Ok(out)
}

} // verus!
