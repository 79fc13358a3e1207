//! What a remote service says about values it rejects (HTTP 422).

use vstd::prelude::*;

use crate::text::{join, joined, law_joined_grows, views};

verus! {

/// The messages of each field, by the field's name.
pub open spec fn messages_by_field(entries: Seq<(String, Vec<String>)>) -> Map<
    Seq<char>,
    Seq<Seq<char>>,
>
    decreases entries.len(),
{
    if entries.len() == 0 {
        Map::empty()
    } else {
        messages_by_field(entries.drop_last()).insert(
            entries.last().0@,
            views(entries.last().1@),
        )
    }
}

/// The names of the fields, in order.
pub open spec fn field_names(entries: Seq<(String, Vec<String>)>) -> Seq<Seq<char>> {
    entries.map_values(|entry: (String, Vec<String>)| entry.0@)
}

/// The line for one field: its name, a colon, and its messages.
pub open spec fn field_line(name: Seq<char>, messages: Seq<Seq<char>>) -> Seq<char> {
    name + ": "@ + joined(messages, "; "@)
}

/// No field occurs twice.
pub open spec fn fields_are_distinct(entries: Seq<(String, Vec<String>)>) -> bool {
    field_names(entries).no_duplicates()
}

proof fn lemma_lookup(entries: Seq<(String, Vec<String>)>)
    requires
        fields_are_distinct(entries),
    ensures
        forall|i: int|
            0 <= i < entries.len() ==> messages_by_field(entries).contains_key(
                (#[trigger] entries[i]).0@,
            ) && messages_by_field(entries)[entries[i].0@] == views(entries[i].1@),
        messages_by_field(entries).dom() == field_names(entries).to_set(),
    decreases entries.len(),
{
    let names = field_names(entries);
    if entries.len() == 0 {
        assert(messages_by_field(entries).dom() =~= names.to_set());
    } else {
        let shorter = entries.drop_last();
        let last = entries.last();
        assert(field_names(shorter) =~= names.drop_last());
        lemma_lookup(shorter);
        assert forall|i: int| 0 <= i < entries.len() implies messages_by_field(
            entries,
        ).contains_key((#[trigger] entries[i]).0@) && messages_by_field(entries)[entries[i].0@]
            == views(entries[i].1@) by {
            if i < shorter.len() {
                assert(shorter[i] == entries[i]);
                assert(names[i] != names[entries.len() - 1]);
            }
        }
        assert(messages_by_field(entries).dom() =~= names.to_set()) by {
            assert forall|n: Seq<char>|
                messages_by_field(entries).dom().contains(n) implies names.to_set().contains(n) by {
                if n == last.0@ {
                    assert(names[entries.len() - 1] == n);
                } else {
                    assert(field_names(shorter).to_set().contains(n));
                    let k = choose|k: int|
                        0 <= k < shorter.len() && field_names(shorter)[k] == n;
                    assert(names[k] == n);
                }
            }
            assert forall|n: Seq<char>|
                names.to_set().contains(n) implies messages_by_field(entries).dom().contains(n) by {
                let k = choose|k: int| 0 <= k < names.len() && names[k] == n;
                assert(entries[k].0@ == n);
            }
        }
    }
}

proof fn lemma_replace(entries: Seq<(String, Vec<String>)>, at: int, entry: (String, Vec<String>))
    requires
        fields_are_distinct(entries),
        0 <= at < entries.len(),
        entries[at].0@ == entry.0@,
    ensures
        fields_are_distinct(entries.update(at, entry)),
        messages_by_field(entries.update(at, entry)) == messages_by_field(entries).insert(
            entry.0@,
            views(entry.1@),
        ),
{
    let after = entries.update(at, entry);
    assert(field_names(after) =~= field_names(entries));
    lemma_lookup(entries);
    lemma_lookup(after);
    let updated = messages_by_field(entries).insert(entry.0@, views(entry.1@));
    assert(field_names(entries)[at] == entry.0@);
    assert(messages_by_field(after) =~= updated) by {
        assert forall|n: Seq<char>| messages_by_field(after).contains_key(
            n,
        ) implies messages_by_field(after)[n] == updated[n] by {
            let k = choose|k: int| 0 <= k < entries.len() && field_names(entries)[k] == n;
            assert(entries[k].0@ == n);
            assert(after[k].0@ == n);
            assert(field_names(entries)[k] == n);
        }
    }
}

/// Whether two lists hold the same texts in the same order.
fn same_texts(a: &Vec<String>, b: &Vec<String>) -> (same: bool)
    ensures
        same == (views(a@) == views(b@)),
{
    if a.len() != b.len() {
        assert(views(a@).len() != views(b@).len());
        return false;
    }
    for i in 0..a.len()
        invariant
            a.len() == b.len(),
            forall|k: int| 0 <= k < i ==> (#[trigger] a[k])@ == b[k]@,
    {
        if a[i] != b[i] {
            assert(views(a@)[i as int] != views(b@)[i as int]);
            return false;
        }
    }
    assert(views(a@) =~= views(b@));
    true
}

/// A copy of a list of texts.
fn copy_texts(texts: &Vec<String>) -> (copy: Vec<String>)
    ensures
        views(copy@) == views(texts@),
{
    let mut copy: Vec<String> = Vec::new();
    for i in 0..texts.len()
        invariant
            copy.len() == i,
            forall|k: int| 0 <= k < i ==> (#[trigger] copy[k])@ == texts[k]@,
    {
        copy.push(texts[i].clone());
    }
    assert(views(copy@) =~= views(texts@));
    copy
}

/// The messages for each rejected field. A field occurs at most once.
#[derive(Debug)]
pub struct FieldErrors {
    entries: Vec<(String, Vec<String>)>,
}

impl View for FieldErrors {
    type V = Map<Seq<char>, Seq<Seq<char>>>;

    closed spec fn view(&self) -> Map<Seq<char>, Seq<Seq<char>>> {
        messages_by_field(self.entries@)
    }
}

impl FieldErrors {
    #[verifier::type_invariant]
    spec fn no_field_twice(self) -> bool {
        fields_are_distinct(self.entries@)
    }

    /// The names of the fields, in the order in which they are reported.
    pub closed spec fn order(&self) -> Seq<Seq<char>> {
        field_names(self.entries@)
    }

    /// No field, no message.
    pub fn new() -> (errors: FieldErrors)
        ensures
            errors@ == Map::<Seq<char>, Seq<Seq<char>>>::empty(),
            errors.order() == Seq::<Seq<char>>::empty(),
    {
        let errors = FieldErrors { entries: Vec::new() };
        assert(errors.order() =~= Seq::<Seq<char>>::empty());
        errors
    }

    /// Sets the messages for a field. A field that is new is reported last; one that is not keeps
    /// its place.
    pub fn insert(&mut self, field: String, messages: Vec<String>)
        ensures
            final(self)@ == old(self)@.insert(field@, views(messages@)),
            final(self).order() == (if old(self)@.contains_key(field@) {
                old(self).order()
            } else {
                old(self).order().push(field@)
            }),
    {
        proof {
            use_type_invariant(&*self);
            lemma_lookup(self.entries@);
        }
        let mut entries: Vec<(String, Vec<String>)> = Vec::new();
        std::mem::swap(&mut entries, &mut self.entries);
        let ghost before = entries@;
        let mut at: usize = 0;
        while at < entries.len() && entries[at].0 != field
            invariant
                entries@ == before,
                at <= before.len(),
                forall|k: int| 0 <= k < at ==> (#[trigger] before[k]).0@ != field@,
            decreases before.len() - at,
        {
            at = at + 1;
        }
        let ghost entry = (field, messages);
        if at < entries.len() {
            proof {
                lemma_replace(before, at as int, entry);
                assert(field_names(before.update(at as int, entry)) =~= field_names(before));
            }
            entries.set(at, (field, messages));
        } else {
            proof {
                assert forall|k: int| 0 <= k < before.len() implies field_names(before)[k]
                    != field@ by {
                    assert(before[k].0@ != field@);
                }
                assert(!field_names(before).contains(field@));
                assert(field_names(before.push(entry)) =~= field_names(before).push(field@));
                assert(before.push(entry).drop_last() =~= before);
                assert(!field_names(before).to_set().contains(field@));
            }
            entries.push((field, messages));
        }
        self.entries = entries;
    }

    /// The fields with their messages, such as `name: too short; taken, age: too low`.
    pub fn to_text(&self) -> (text: String)
        ensures
            text@ == joined(
                self.order().map_values(|name: Seq<char>| field_line(name, self@[name])),
                ", "@,
            ),
            self.order().no_duplicates(),
            self.order().to_set() == self@.dom(),
    {
        proof {
            use_type_invariant(self);
            lemma_lookup(self.entries@);
        }
        let mut lines: Vec<String> = Vec::new();
        let ghost fields = self.entries@;
        let ghost expected = self.order().map_values(
            |name: Seq<char>| field_line(name, self@[name]),
        );
        for i in 0..self.entries.len()
            invariant
                fields == self.entries@,
                self@ == messages_by_field(fields),
                expected == field_names(fields).map_values(
                    |name: Seq<char>| field_line(name, self@[name]),
                ),
                forall|k: int|
                    0 <= k < fields.len() ==> messages_by_field(fields)[(
                    #[trigger] fields[k]).0@] == views(fields[k].1@),
                views(lines@) == expected.take(i as int),
        {
            let mut line = self.entries[i].0.clone();
            line.append(": ");
            line.append(join(&self.entries[i].1, "; ").as_str());
            let ghost shown = lines@;
            proof {
                assert(fields[i as int] == self.entries[i as int]);
                assert(line@ =~= expected[i as int]);
            }
            lines.push(line);
            assert(views(lines@) =~= expected.take(i + 1)) by {
                assert(views(lines@) =~= views(shown).push(line@));
            }
        }
        assert(expected.take(fields.len() as int) =~= expected);
        join(&lines, ", ")
    }

    /// Whether every field of `self` stands in `other` with the same messages.
    fn is_part_of(&self, other: &FieldErrors) -> (part: bool)
        ensures
            part == (forall|name: Seq<char>| #[trigger]
                self@.contains_key(name) ==> other@.contains_key(name) && other@[name]
                    == self@[name]),
    {
        proof {
            use_type_invariant(self);
            use_type_invariant(other);
            lemma_lookup(self.entries@);
            lemma_lookup(other.entries@);
        }
        for i in 0..self.entries.len()
            invariant
                fields_are_distinct(self.entries@),
                fields_are_distinct(other.entries@),
                forall|k: int|
                    0 <= k < i ==> other@.contains_key((#[trigger] self.entries@[k]).0@)
                        && other@[self.entries@[k].0@] == views(self.entries@[k].1@),
        {
            proof {
                lemma_lookup(self.entries@);
                lemma_lookup(other.entries@);
            }
            let mut j: usize = 0;
            while j < other.entries.len() && other.entries[j].0 != self.entries[i].0
                invariant
                    i < self.entries.len(),
                    j <= other.entries.len(),
                    forall|k: int|
                        0 <= k < j ==> (#[trigger] other.entries@[k]).0@
                            != self.entries@[i as int].0@,
                decreases other.entries.len() - j,
            {
                j = j + 1;
            }
            let ghost name = self.entries@[i as int].0@;
            if j == other.entries.len() {
                proof {
                    assert(self@.contains_key(name));
                    if other@.contains_key(name) {
                        let k = choose|k: int|
                            0 <= k < other.entries@.len() && field_names(other.entries@)[k]
                                == name;
                        assert(other.entries@[k].0@ == name);
                    }
                }
                return false;
            }
            if !same_texts(&self.entries[i].1, &other.entries[j].1) {
                proof {
                    assert(self@.contains_key(name));
                    assert(other@[name] == views(other.entries@[j as int].1@));
                }
                return false;
            }
        }
        assert forall|name: Seq<char>| #[trigger] self@.contains_key(
            name,
        ) implies other@.contains_key(name) && other@[name] == self@[name] by {
            let k = choose|k: int|
                0 <= k < self.entries@.len() && field_names(self.entries@)[k] == name;
            assert(self.entries@[k].0@ == name);
        }
        true
    }

    /// Whether two reports name the same fields with the same messages, in whatever order.
    pub fn same_as(&self, other: &FieldErrors) -> (same: bool)
        ensures
            same == (self@ == other@),
    {
        let same = self.is_part_of(other) && other.is_part_of(self);
        if same {
            assert(self@ =~= other@);
        }
        same
    }
}

impl Clone for FieldErrors {
    fn clone(&self) -> (copy: FieldErrors)
        ensures
            copy@ == self@,
            copy.order() == self.order(),
    {
        proof {
            use_type_invariant(self);
        }
        let mut copy = FieldErrors::new();
        for i in 0..self.entries.len()
            invariant
                fields_are_distinct(self.entries@),
                copy@ == messages_by_field(self.entries@.take(i as int)),
                copy.order() == field_names(self.entries@.take(i as int)),
        {
            let ghost done = self.entries@.take(i as int);
            proof {
                let more = self.entries@.take(i + 1);
                assert(more.drop_last() =~= done);
                assert(field_names(more) =~= field_names(done).push(self.entries@[i as int].0@));
                assert(field_names(self.entries@.take(i as int)) =~= field_names(
                    self.entries@,
                ).take(i as int));
                lemma_lookup(done);
                if messages_by_field(done).contains_key(self.entries@[i as int].0@) {
                    let k = choose|k: int|
                        0 <= k < i && field_names(done)[k] == self.entries@[i as int].0@;
                    assert(field_names(self.entries@)[k] == field_names(self.entries@)[i as int]);
                }
            }
            copy.insert(self.entries[i].0.clone(), copy_texts(&self.entries[i].1));
        }
        assert(self.entries@.take(self.entries.len() as int) =~= self.entries@);
        copy
    }
}

/// What a service reports about rejected values: messages for each field, or messages alone.
#[derive(Debug)]
pub enum ApiErrors {
    /// Messages that belong to the fields of the request.
    Fields(FieldErrors),
    /// Messages without a field.
    Messages(Vec<String>),
}

impl ApiErrors {
    /// The summary: fields with their messages, or the messages separated by semicolons.
    pub open spec fn summary(&self) -> Seq<char> {
        match self {
            ApiErrors::Fields(fields) => joined(
                fields.order().map_values(|name: Seq<char>| field_line(name, fields@[name])),
                ", "@,
            ),
            ApiErrors::Messages(messages) => joined(views(messages@), "; "@),
        }
    }

    /// A summary for people. Of rejected fields each is listed once.
    pub fn to_text(&self) -> (text: String)
        ensures
            text@ == self.summary(),
            self matches ApiErrors::Fields(fields) ==> fields.order().no_duplicates()
                && fields.order().to_set() == fields@.dom(),
    {
        match self {
            ApiErrors::Fields(fields) => fields.to_text(),
            ApiErrors::Messages(messages) => join(messages, "; "),
        }
    }
}

impl Clone for ApiErrors {
    fn clone(&self) -> (copy: ApiErrors)
        ensures
            copy.summary() == self.summary(),
            copy.same_report(self),
    {
        match self {
            ApiErrors::Fields(fields) => ApiErrors::Fields(fields.clone()),
            ApiErrors::Messages(messages) => ApiErrors::Messages(copy_texts(messages)),
        }
    }
}

impl ApiErrors {
    /// Two reports are the same when they hold the same messages for the same fields, or the same
    /// list of messages.
    pub open spec fn same_report(&self, other: &ApiErrors) -> bool {
        match (self, other) {
            (ApiErrors::Fields(a), ApiErrors::Fields(b)) => a@ == b@,
            (ApiErrors::Messages(a), ApiErrors::Messages(b)) => views(a@) == views(b@),
            _ => false,
        }
    }
}

impl PartialEq for ApiErrors {
    fn eq(&self, other: &ApiErrors) -> (same: bool) {
        match (self, other) {
            (ApiErrors::Fields(a), ApiErrors::Fields(b)) => a.same_as(b),
            (ApiErrors::Messages(a), ApiErrors::Messages(b)) => same_texts(a, b),
            _ => false,
        }
    }
}

impl vstd::std_specs::cmp::PartialEqSpecImpl for ApiErrors {
    open spec fn obeys_eq_spec() -> bool {
        true
    }

    open spec fn eq_spec(&self, other: &ApiErrors) -> bool {
        self.same_report(other)
    }
}

/// The envelope in which many services wrap such a report.
#[derive(Debug)]
pub struct ApiErrorResponse {
    /// The report.
    pub errors: ApiErrors,
}

/// The line for a field begins with its name and a colon, and holds its messages in order, with a
/// semicolon between neighbours and nowhere else.
pub proof fn law_field_line_grows(name: Seq<char>, messages: Seq<Seq<char>>, message: Seq<char>)
    ensures
        field_line(name, Seq::empty()) == name + ": "@,
        field_line(name, seq![message]) == name + ": "@ + message,
        messages.len() > 0 ==> field_line(name, messages.push(message)) == field_line(
            name,
            messages,
        ) + "; "@ + message,
{
    law_joined_grows(messages, message, "; "@);
    assert(name + ": "@ + Seq::<char>::empty() =~= name + ": "@);
    if messages.len() > 0 {
        assert(field_line(name, messages.push(message)) =~= field_line(name, messages) + "; "@
            + message);
    }
}

/// The summary of a report without fields is its messages in order, with a semicolon between
/// neighbours; the summary of one with fields is their lines in order, with a comma between
/// neighbours.
pub proof fn law_summary_is_joined(fields: FieldErrors, messages: Vec<String>)
    ensures
        ApiErrors::Messages(messages).summary() == joined(views(messages@), "; "@),
        ApiErrors::Fields(fields).summary() == joined(
            Seq::new(
                fields.order().len(),
                |i: int| field_line(fields.order()[i], fields@[fields.order()[i]]),
            ),
            ", "@,
        ),
{
    assert(fields.order().map_values(|name: Seq<char>| field_line(name, fields@[name])) =~= Seq::new(
        fields.order().len(),
        |i: int| field_line(fields.order()[i], fields@[fields.order()[i]]),
    ));
}

/// Reports are the same exactly when they have the same form and hold the same: the same messages for
/// the same fields, or the same messages in the same order.
pub proof fn law_when_reports_are_the_same(
    a: FieldErrors,
    b: FieldErrors,
    c: Vec<String>,
    d: Vec<String>,
)
    ensures
        ApiErrors::Fields(a).same_report(&ApiErrors::Fields(b)) <==> a@ == b@,
        ApiErrors::Messages(c).same_report(&ApiErrors::Messages(d)) <==> c.len() == d.len() && (
        forall|i: int| 0 <= i < c.len() ==> #[trigger] c@[i]@ == d@[i]@),
        !ApiErrors::Fields(a).same_report(&ApiErrors::Messages(c)),
        !ApiErrors::Messages(c).same_report(&ApiErrors::Fields(a)),
{
    if views(c@) == views(d@) {
        assert(views(c@).len() == c.len());
        assert(views(d@).len() == d.len());
        assert forall|i: int| 0 <= i < c.len() implies #[trigger] c@[i]@ == d@[i]@ by {
            assert(views(c@)[i] == views(d@)[i]);
        }
    }
    if c.len() == d.len() && (forall|i: int| 0 <= i < c.len() ==> #[trigger] c@[i]@ == d@[i]@) {
        assert(views(c@) =~= views(d@));
    }
}

/// Setting the messages of a field sets them whole, and leaves those of every other field.
pub proof fn law_fields_are_set_one_by_one(
    errors: &mut FieldErrors,
    field: String,
    messages: Vec<String>,
    other: Seq<char>,
)
    requires
        call_ensures(FieldErrors::insert, (errors, field, messages), ()),
        other != field@,
    ensures
        final(errors)@.contains_key(field@),
        final(errors)@[field@].len() == messages.len(),
        forall|i: int|
            0 <= i < messages.len() ==> final(errors)@[field@][i] == #[trigger] messages@[i]@,
        final(errors)@.contains_key(other) <==> old(errors)@.contains_key(other),
        old(errors)@.contains_key(other) ==> final(errors)@[other] == old(errors)@[other],
{
}

} // verus!
