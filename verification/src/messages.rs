//! Typed messages decoded from the test tool's output stream.
//!
//! A line is decoded against three known shapes, selected by the
//! `type` member of the line's object: `test` (with a `name` and an
//! `event`, the latter selecting the [`TestState`]), `suite` and
//! `finished`.  Every line that does not match — malformed text, an
//! unknown shape, or plain human-readable output — becomes a `Custom`
//! message carrying the line verbatim, so decoding never fails.

use vstd::prelude::*;

use crate::json::{
    FieldModel, FieldValue, fields_model, parse_line_fields, spec_line_fields,
};

verus! {

use vstd::std_specs::iter::IteratorSpec;
use vstd::string::StringExecFns;

/// The state reported for one test by a `test`-shaped line.
#[derive(Debug)]
pub enum TestState {
    Started,
    /// Reported on the wire as the event string `"ok"`.
    Passed,
    Ignored,
    /// The captured standard output of the failing test; the wire format
    /// omits the member when it is empty, and the decoder restores `""`.
    Failed { stdout: String },
}

/// One decoded unit of tool output: a known structured line, or an
/// opaque line of plain text.
#[derive(Debug)]
pub enum CargoTestMessage {
    Test { name: String, state: TestState },
    Suite,
    Finished,
    Custom { text: String },
}

/// Mathematical model of a [`TestState`]: the same shape over `Seq<char>`.
pub enum StateModel {
    Started,
    Passed,
    Ignored,
    Failed { stdout: Seq<char> },
}

/// Mathematical model of a [`CargoTestMessage`].
pub enum MsgModel {
    Test { name: Seq<char>, state: StateModel },
    Suite,
    Finished,
    Custom { text: Seq<char> },
}

impl View for TestState {
    type V = StateModel;

    open spec fn view(&self) -> StateModel {
        match self {
            TestState::Started => StateModel::Started,
            TestState::Passed => StateModel::Passed,
            TestState::Ignored => StateModel::Ignored,
            TestState::Failed { stdout } => StateModel::Failed { stdout: stdout@ },
        }
    }
}

impl View for CargoTestMessage {
    type V = MsgModel;

    open spec fn view(&self) -> MsgModel {
        match self {
            CargoTestMessage::Test { name, state } => MsgModel::Test {
                name: name@,
                state: state@,
            },
            CargoTestMessage::Suite => MsgModel::Suite,
            CargoTestMessage::Finished => MsgModel::Finished,
            CargoTestMessage::Custom { text } => MsgModel::Custom { text: text@ },
        }
    }
}

// ---------------------------------------------------------------------
// Shape selection over the decoded members
// ---------------------------------------------------------------------

/// How many members of the list carry the given key.
pub open spec fn count_key(fields: Seq<(Seq<char>, FieldModel)>, key: Seq<char>) -> nat
    decreases fields.len(),
{
    if fields.len() == 0 {
        0
    } else {
        (if fields[0].0 == key {
            1nat
        } else {
            0nat
        }) + count_key(fields.drop_first(), key)
    }
}

/// The string value of the first member with the given key; `None` when
/// no member has it, or the first one's value is not a string.
pub open spec fn field_string(fields: Seq<(Seq<char>, FieldModel)>, key: Seq<char>) -> Option<
    Seq<char>,
>
    decreases fields.len(),
{
    if fields.len() == 0 {
        None
    } else if fields[0].0 == key {
        match fields[0].1 {
            FieldModel::Text(t) => Some(t),
            FieldModel::Opaque => None,
        }
    } else {
        field_string(fields.drop_first(), key)
    }
}

/// The captured output of a failed test: absent means empty; present
/// once, it must be a string; repeated, the line is rejected.
pub open spec fn stdout_of(fields: Seq<(Seq<char>, FieldModel)>) -> Option<Seq<char>> {
    if count_key(fields, "stdout"@) == 0 {
        Some(Seq::empty())
    } else if count_key(fields, "stdout"@) == 1 {
        field_string(fields, "stdout"@)
    } else {
        None
    }
}

/// The `test` shape: exactly one string `name`, exactly one `event`
/// selecting the state, and for `failed` the optional `stdout`.
pub open spec fn test_shape_of(fields: Seq<(Seq<char>, FieldModel)>) -> Option<MsgModel> {
    if count_key(fields, "name"@) == 1 && count_key(fields, "event"@) == 1 {
        match (field_string(fields, "name"@), field_string(fields, "event"@)) {
            (Some(name), Some(ev)) => {
                if ev == "started"@ {
                    Some(MsgModel::Test { name, state: StateModel::Started })
                } else if ev == "ok"@ {
                    Some(MsgModel::Test { name, state: StateModel::Passed })
                } else if ev == "ignored"@ {
                    Some(MsgModel::Test { name, state: StateModel::Ignored })
                } else if ev == "failed"@ {
                    match stdout_of(fields) {
                        Some(out) => Some(
                            MsgModel::Test { name, state: StateModel::Failed { stdout: out } },
                        ),
                        None => None,
                    }
                } else {
                    None
                }
            },
            _ => None,
        }
    } else {
        None
    }
}

/// The message meant by the members of a line's object, when its
/// exactly-once string `type` member names one of the known shapes.
pub open spec fn shape_of(fields: Seq<(Seq<char>, FieldModel)>) -> Option<MsgModel> {
    if count_key(fields, "type"@) == 1 {
        match field_string(fields, "type"@) {
            Some(t) => {
                if t == "suite"@ {
                    Some(MsgModel::Suite)
                } else if t == "finished"@ {
                    Some(MsgModel::Finished)
                } else if t == "test"@ {
                    test_shape_of(fields)
                } else {
                    None
                }
            },
            None => None,
        }
    } else {
        None
    }
}

/// What one raw line decodes to: the structured message it encodes, or
/// the line itself as opaque text.
pub open spec fn decode_line_spec(line: Seq<char>) -> MsgModel {
    match spec_line_fields(line) {
        Some(fields) => match shape_of(fields) {
            Some(m) => m,
            None => MsgModel::Custom { text: line },
        },
        None => MsgModel::Custom { text: line },
    }
}

// ---------------------------------------------------------------------
// The executable shape matcher
// ---------------------------------------------------------------------

proof fn lemma_count_key_skip(fields: Seq<(Seq<char>, FieldModel)>, key: Seq<char>, i: int)
    requires
        0 <= i < fields.len(),
    ensures
        count_key(fields.skip(i), key) == (if fields[i].0 == key {
            1nat
        } else {
            0nat
        }) + count_key(fields.skip(i + 1), key),
{
    assert(fields.skip(i)[0] == fields[i]);
    assert(fields.skip(i).drop_first() =~= fields.skip(i + 1));
}

proof fn lemma_field_string_skip(fields: Seq<(Seq<char>, FieldModel)>, key: Seq<char>, i: int)
    requires
        0 <= i < fields.len(),
    ensures
        fields[i].0 == key ==> field_string(fields.skip(i), key) == (match fields[i].1 {
            FieldModel::Text(t) => Some(t),
            FieldModel::Opaque => None,
        }),
        fields[i].0 != key ==> field_string(fields.skip(i), key) == field_string(
            fields.skip(i + 1),
            key,
        ),
{
    assert(fields.skip(i)[0] == fields[i]);
    assert(fields.skip(i).drop_first() =~= fields.skip(i + 1));
}

fn key_count(fields: &Vec<(String, FieldValue)>, key: &String) -> (n: usize)
    ensures
        n as nat == count_key(fields_model(fields@), key@),
{
    let mut n: usize = 0;
    let mut idx: usize = 0;
    proof {
        assert(fields_model(fields@).skip(0) =~= fields_model(fields@));
    }
    while idx < fields.len()
        invariant
            idx <= fields.len(),
            n <= idx,
            n as nat + count_key(fields_model(fields@).skip(idx as int), key@) == count_key(
                fields_model(fields@),
                key@,
            ),
        decreases fields.len() - idx,
    {
        proof {
            lemma_count_key_skip(fields_model(fields@), key@, idx as int);
        }
        if fields[idx].0 == *key {
            n = n + 1;
        }
        idx = idx + 1;
    }
    proof {
        assert(fields_model(fields@).skip(fields@.len() as int).len() == 0);
    }
    n
}

fn key_string(fields: &Vec<(String, FieldValue)>, key: &String) -> (r: Option<String>)
    ensures
        ({
            match (field_string(fields_model(fields@), key@), r) {
                (Some(t), Some(rs)) => rs@ == t,
                (None, None) => true,
                _ => false,
            }
        }),
{
    let mut idx: usize = 0;
    proof {
        assert(fields_model(fields@).skip(0) =~= fields_model(fields@));
    }
    while idx < fields.len()
        invariant
            idx <= fields.len(),
            field_string(fields_model(fields@), key@) == field_string(
                fields_model(fields@).skip(idx as int),
                key@,
            ),
        decreases fields.len() - idx,
    {
        proof {
            lemma_field_string_skip(fields_model(fields@), key@, idx as int);
        }
        if fields[idx].0 == *key {
            match &fields[idx].1 {
                FieldValue::Text(t) => {
                    return Some(t.clone());
                },
                FieldValue::Opaque => {
                    return None;
                },
            }
        }
        idx = idx + 1;
    }
    proof {
        assert(fields_model(fields@).skip(fields@.len() as int).len() == 0);
    }
    None
}

fn test_message_of_fields(fields: &Vec<(String, FieldValue)>) -> (r: Option<CargoTestMessage>)
    ensures
        ({
            match (test_shape_of(fields_model(fields@)), r) {
                (Some(m), Some(msg)) => msg@ == m,
                (None, None) => true,
                _ => false,
            }
        }),
{
    let name_key = String::from_str("name");
    let event_key = String::from_str("event");
    if key_count(fields, &name_key) != 1 || key_count(fields, &event_key) != 1 {
        return None;
    }
    let name = match key_string(fields, &name_key) {
        Some(n) => n,
        None => {
            return None;
        },
    };
    let ev = match key_string(fields, &event_key) {
        Some(e) => e,
        None => {
            return None;
        },
    };
    if ev == String::from_str("started") {
        Some(CargoTestMessage::Test { name, state: TestState::Started })
    } else if ev == String::from_str("ok") {
        Some(CargoTestMessage::Test { name, state: TestState::Passed })
    } else if ev == String::from_str("ignored") {
        Some(CargoTestMessage::Test { name, state: TestState::Ignored })
    } else if ev == String::from_str("failed") {
        let stdout_key = String::from_str("stdout");
        let c = key_count(fields, &stdout_key);
        if c == 0 {
            Some(CargoTestMessage::Test { name, state: TestState::Failed { stdout: String::new() } })
        } else if c == 1 {
            match key_string(fields, &stdout_key) {
                Some(out) => Some(
                    CargoTestMessage::Test { name, state: TestState::Failed { stdout: out } },
                ),
                None => None,
            }
        } else {
            None
        }
    } else {
        None
    }
}

fn message_of_fields(fields: &Vec<(String, FieldValue)>) -> (r: Option<CargoTestMessage>)
    ensures
        ({
            match (shape_of(fields_model(fields@)), r) {
                (Some(m), Some(msg)) => msg@ == m,
                (None, None) => true,
                _ => false,
            }
        }),
{
    let type_key = String::from_str("type");
    if key_count(fields, &type_key) != 1 {
        return None;
    }
    match key_string(fields, &type_key) {
        Some(t) => {
            if t == String::from_str("suite") {
                Some(CargoTestMessage::Suite)
            } else if t == String::from_str("finished") {
                Some(CargoTestMessage::Finished)
            } else if t == String::from_str("test") {
                test_message_of_fields(fields)
            } else {
                None
            }
        },
        None => None,
    }
}

// ---------------------------------------------------------------------
// Decoding one line, and the end of the stream
// ---------------------------------------------------------------------

fn chars_vec(s: &str) -> (v: Vec<char>)
    ensures
        v@ == s@,
{
    broadcast use vstd::string::group_string_axioms;

    let mut it = s.chars();
    let mut v: Vec<char> = Vec::new();
    proof {
        assert(v@ + it.remaining() =~= s@);
    }
    loop
        invariant
            it.obeys_prophetic_iter_laws(),
            v@ + it.remaining() == s@,
        ensures
            v@ == s@,
        decreases s@.len() - v@.len(),
    {
        match it.next() {
            Some(c) => {
                v.push(c);
                proof {
                    assert(v@ + it.remaining() =~= s@);
                }
            },
            None => {
                proof {
                    assert(it.remaining().len() == 0);
                    assert(v@ =~= s@);
                }
                break;
            },
        }
    }
    v
}

impl CargoTestMessage {
    /// Decodes one raw output line into exactly one message.  A line
    /// that encodes a known shape yields that message; any other line —
    /// malformed, unknown, or plain text — is passed through verbatim as
    /// `Custom`.  The accumulation slot is owned by the caller and
    /// threaded through successive calls; the shapes defined so far
    /// leave it untouched.
    pub fn from_line(line: &str, accum: &mut String) -> (msg: CargoTestMessage)
        ensures
            msg@ == decode_line_spec(line@),
            *final(accum) == *old(accum),
    {
        let chars = chars_vec(line);
        match parse_line_fields(&chars) {
            Some(fields) => match message_of_fields(&fields) {
                Some(m) => m,
                None => CargoTestMessage::Custom { text: line.to_owned() },
            },
            None => CargoTestMessage::Custom { text: line.to_owned() },
        }
    }

    /// The synthetic terminal marker produced once at end of stream,
    /// whether or not a `finished` line was ever observed.
    pub fn from_eof() -> (msg: CargoTestMessage)
        ensures
            msg@ == MsgModel::Finished,
    {
        CargoTestMessage::Finished
    }
}

// ---------------------------------------------------------------------
// Stated properties of the decoder
// ---------------------------------------------------------------------

/// The event string with which a state is reported on the wire.
pub open spec fn event_str(st: StateModel) -> Seq<char> {
    match st {
        StateModel::Started => "started"@,
        StateModel::Passed => "ok"@,
        StateModel::Ignored => "ignored"@,
        StateModel::Failed { .. } => "failed"@,
    }
}

/// The member list with which the tool reports a structured message:
/// the `type` tag; for a test, its name and event; and the captured
/// output of a failure when there is any — an empty one is omitted on
/// the wire, and decoding restores it.
pub open spec fn canonical_fields(m: MsgModel) -> Seq<(Seq<char>, FieldModel)> {
    match m {
        MsgModel::Suite => seq![("type"@, FieldModel::Text("suite"@))],
        MsgModel::Finished => seq![("type"@, FieldModel::Text("finished"@))],
        MsgModel::Test { name, state } => {
            let base = seq![
                ("type"@, FieldModel::Text("test"@)),
                ("name"@, FieldModel::Text(name)),
                ("event"@, FieldModel::Text(event_str(state))),
            ];
            match state {
                StateModel::Failed { stdout } => if stdout.len() == 0 {
                    base
                } else {
                    base + seq![("stdout"@, FieldModel::Text(stdout))]
                },
                _ => base,
            }
        },
        MsgModel::Custom { .. } => Seq::empty(),
    }
}

proof fn lemma_lookup_cons(
    head: (Seq<char>, FieldModel),
    rest: Seq<(Seq<char>, FieldModel)>,
    key: Seq<char>,
)
    ensures
        count_key(seq![head] + rest, key) == (if head.0 == key {
            1nat
        } else {
            0nat
        }) + count_key(rest, key),
        head.0 == key ==> field_string(seq![head] + rest, key) == (match head.1 {
            FieldModel::Text(t) => Some(t),
            FieldModel::Opaque => None,
        }),
        head.0 != key ==> field_string(seq![head] + rest, key) == field_string(rest, key),
{
    let fs = seq![head] + rest;
    assert(fs[0] == head);
    assert(fs.drop_first() =~= rest);
}

proof fn lemma_lookup_empty(key: Seq<char>)
    ensures
        count_key(Seq::empty(), key) == 0,
        field_string(Seq::empty(), key) is None,
{
}

/// The four member keys the decoder reads are pairwise distinct.
proof fn lemma_keys_distinct()
    ensures
        "type"@ != "name"@,
        "type"@ != "event"@,
        "type"@ != "stdout"@,
        "name"@ != "event"@,
        "name"@ != "stdout"@,
        "event"@ != "stdout"@,
{
    reveal_strlit("type");
    reveal_strlit("name");
    reveal_strlit("event");
    reveal_strlit("stdout");
    assert("type"@[0] != "name"@[0]);
    assert("type"@.len() == 4 && "name"@.len() == 4 && "event"@.len() == 5 && "stdout"@.len()
        == 6);
}

/// Decoding round-trips a structured message: the member list that
/// encodes it is recognized, and yields exactly the message back — tag,
/// name, event and captured output alike.
pub proof fn lemma_shape_round_trip(m: MsgModel)
    requires
        !(m is Custom),
    ensures
        shape_of(canonical_fields(m)) == Some(m),
{
    lemma_keys_distinct();
    reveal_strlit("suite");
    reveal_strlit("finished");
    reveal_strlit("test");
    reveal_strlit("started");
    reveal_strlit("ok");
    reveal_strlit("ignored");
    reveal_strlit("failed");
    let fs = canonical_fields(m);
    match m {
        MsgModel::Suite => {
            let t0 = ("type"@, FieldModel::Text("suite"@));
            assert(fs =~= seq![t0] + Seq::empty());
            lemma_lookup_cons(t0, Seq::empty(), "type"@);
            lemma_lookup_empty("type"@);
            assert("suite"@ != "finished"@ && "suite"@ != "test"@) by {
                assert("suite"@.len() == 5);
                assert("finished"@.len() == 8);
                assert("test"@.len() == 4);
            }
        },
        MsgModel::Finished => {
            let t0 = ("type"@, FieldModel::Text("finished"@));
            assert(fs =~= seq![t0] + Seq::empty());
            lemma_lookup_cons(t0, Seq::empty(), "type"@);
            lemma_lookup_empty("type"@);
            assert("finished"@ != "suite"@ && "finished"@ != "test"@) by {
                assert("suite"@.len() == 5);
                assert("finished"@.len() == 8);
                assert("test"@.len() == 4);
            }
        },
        MsgModel::Test { name, state } => {
            let t0 = ("type"@, FieldModel::Text("test"@));
            let t1 = ("name"@, FieldModel::Text(name));
            let t2 = ("event"@, FieldModel::Text(event_str(state)));
            let with_stdout = match state {
                StateModel::Failed { stdout } => stdout.len() > 0,
                _ => false,
            };
            let last = if with_stdout {
                seq![("stdout"@, FieldModel::Text(state->Failed_stdout))] + Seq::empty()
            } else {
                Seq::empty()
            };
            if with_stdout {
                assert(fs =~= seq![t0] + (seq![t1] + (seq![t2] + last)));
            } else {
                assert(fs =~= seq![t0] + (seq![t1] + (seq![t2] + last)));
            }
            lemma_lookup_cons(t0, seq![t1] + (seq![t2] + last), "type"@);
            lemma_lookup_cons(t1, seq![t2] + last, "type"@);
            lemma_lookup_cons(t2, last, "type"@);
            lemma_lookup_cons(t0, seq![t1] + (seq![t2] + last), "name"@);
            lemma_lookup_cons(t1, seq![t2] + last, "name"@);
            lemma_lookup_cons(t2, last, "name"@);
            lemma_lookup_cons(t0, seq![t1] + (seq![t2] + last), "event"@);
            lemma_lookup_cons(t1, seq![t2] + last, "event"@);
            lemma_lookup_cons(t2, last, "event"@);
            lemma_lookup_cons(t0, seq![t1] + (seq![t2] + last), "stdout"@);
            lemma_lookup_cons(t1, seq![t2] + last, "stdout"@);
            lemma_lookup_cons(t2, last, "stdout"@);
            if with_stdout {
                let st = ("stdout"@, FieldModel::Text(state->Failed_stdout));
                lemma_lookup_cons(st, Seq::empty(), "type"@);
                lemma_lookup_cons(st, Seq::empty(), "name"@);
                lemma_lookup_cons(st, Seq::empty(), "event"@);
                lemma_lookup_cons(st, Seq::empty(), "stdout"@);
                lemma_lookup_empty("type"@);
                lemma_lookup_empty("name"@);
                lemma_lookup_empty("event"@);
                lemma_lookup_empty("stdout"@);
            } else {
                lemma_lookup_empty("type"@);
                lemma_lookup_empty("name"@);
                lemma_lookup_empty("event"@);
                lemma_lookup_empty("stdout"@);
            }
            assert("test"@ != "suite"@ && "test"@ != "finished"@) by {
                assert("suite"@.len() == 5);
                assert("finished"@.len() == 8);
                assert("test"@.len() == 4);
            }
            assert("started"@ != "ok"@ && "started"@ != "ignored"@ && "started"@ != "failed"@) by {
                assert("started"@.len() == 7);
                assert("ok"@.len() == 2);
                assert("ignored"@.len() == 7);
                assert("failed"@.len() == 6);
                assert("started"@[0] != "ignored"@[0]);
            }
            assert("ok"@ != "ignored"@ && "ok"@ != "failed"@ && "ignored"@ != "failed"@) by {
                assert("ok"@.len() == 2);
                assert("ignored"@.len() == 7);
                assert("failed"@.len() == 6);
            }
            match state {
                StateModel::Failed { stdout } => {
                    if stdout.len() == 0 {
                        assert(stdout_of(fs) == Some(Seq::<char>::empty()));
                        assert(Seq::<char>::empty() =~= stdout);
                    } else {
                        assert(stdout_of(fs) == Some(stdout));
                    }
                },
                _ => {},
            }
        },
        MsgModel::Custom { .. } => {},
    }
}

/// A line that does not encode a known structured shape — malformed
/// text, an unknown shape, or plain output — decodes to `Custom`
/// carrying the line verbatim; decoding never fails.
pub proof fn lemma_unstructured_is_custom(line: Seq<char>)
    requires
        ({
            match spec_line_fields(line) {
                Some(fields) => shape_of(fields) is None,
                None => true,
            }
        }),
    ensures
        decode_line_spec(line) == (MsgModel::Custom { text: line }),
{
}

} // verus!
