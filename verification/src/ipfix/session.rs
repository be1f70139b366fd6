//! The session: a cache of templates, fed by the template sets of the
//! packets it is given, and the projection of data sets under those
//! templates.

use super::dictionary::{
    add_default_field_parsers, decode_field, default_dictionary, dictionary, field_value,
    get_default_field_parsers, with_entries, Dictionary, FieldExtractor, NameFn, DEFAULT_FIELDS,
};
use super::parser::{
    readable_fields, DataSet, DataSetView, FieldSpecifier, IpfixSet, Packet, SetView,
    TemplateRecord, TemplateRecordView, VARIABLE_LENGTH,
};
use crate::protocol::{Record, RecordSet, RecordSetView, RecordView, Value, ValueView};
use std::collections::HashMap;
use vstd::prelude::*;
use vstd::slice::slice_to_vec;

verus! {

broadcast use vstd::std_specs::hash::group_hash_axioms;

/// A projector: turns one data record, laid out by the fields of its
/// template, into a value of its own choosing, or declines.
pub trait Parser<'a> {
    type Output;

    /// Whether `out` is an answer that this projector may give for the
    /// record `set` under the template `fields`. A projector that does not
    /// say may give any answer.
    open spec fn projects(
        &self,
        fields: Seq<FieldSpecifier>,
        set: DataSetView,
        out: Option<Self::Output>,
    ) -> bool {
        true
    }

    fn parse(&self, fields: &[FieldSpecifier], set: &DataSet<'a>) -> (out: Option<Self::Output>)
        ensures
            self.projects(fields@, set@, out),
    ;
}

/// A template cache: the fields of each template id that is known.
pub type Templates = Map<u16, Seq<FieldSpecifier>>;

/// One call of a projector: the fields of a template, and one data record
/// under the id of that template.
pub type Call = (Seq<FieldSpecifier>, DataSetView);

/// The cache after the template records `records` were installed in order:
/// each id maps to the fields of the last record that carried it.
pub open spec fn install(cache: Templates, records: Seq<TemplateRecordView>) -> Templates
    decreases records.len(),
{
    if records.len() == 0 {
        cache
    } else {
        install(cache, records.drop_last()).insert(records.last().id, records.last().fields)
    }
}

/// The cache after the sets `sets` were seen in order: template sets are
/// installed, other sets leave the cache as it is.
pub open spec fn cache_after(cache: Templates, sets: Seq<SetView>) -> Templates
    decreases sets.len(),
{
    if sets.len() == 0 {
        cache
    } else {
        let before = cache_after(cache, sets.drop_last());
        match sets.last() {
            SetView::TemplateSet(records) => install(before, records),
            _ => before,
        }
    }
}

/// The number of bytes that one record takes at the front of `data` when it
/// is laid out by `fields`; `None` where `data` ends before the record does.
pub open spec fn record_len(fields: Seq<FieldSpecifier>, data: Seq<u8>) -> Option<nat>
    decreases fields.len(),
{
    if fields.len() == 0 {
        Some(0)
    } else {
        match fields[0].extent(data) {
            None => None,
            Some((_, end)) => match record_len(fields.skip(1), data.skip(end as int)) {
                None => None,
                Some(n) => Some(end + n),
            },
        }
    }
}

/// A record never takes more bytes than there are.
pub proof fn lemma_record_len_fits(fields: Seq<FieldSpecifier>, data: Seq<u8>)
    ensures
        record_len(fields, data) matches Some(n) ==> n <= data.len(),
    decreases fields.len(),
{
    if fields.len() > 0 {
        if let Some((_, end)) = fields[0].extent(data) {
            lemma_record_len_fits(fields.skip(1), data.skip(end as int));
        }
    }
}

/// The records that the payload of a data set holds, one after the other.
/// What is left when no further whole record fits is padding. A template
/// whose records are empty describes no record at all.
pub open spec fn split_records(fields: Seq<FieldSpecifier>, payload: Seq<u8>) -> Seq<Seq<u8>>
    decreases payload.len(),
{
    match record_len(fields, payload) {
        None => Seq::empty(),
        Some(n) => if n == 0 {
            Seq::empty()
        } else {
            proof {
                lemma_record_len_fits(fields, payload);
            }
            seq![payload.take(n as int)] + split_records(fields, payload.skip(n as int))
        },
    }
}

/// The calls that a data set asks of the projector under `cache`: none
/// where its template is not known, else one for each of its records.
pub open spec fn data_set_calls(cache: Templates, set: DataSetView) -> Seq<Call> {
    if cache.contains_key(set.id) {
        split_records(cache[set.id], set.data).map_values(
            |record: Seq<u8>| (cache[set.id], DataSetView { id: set.id, data: record }),
        )
    } else {
        Seq::empty()
    }
}

/// The calls that `sets` ask of the projector, in wire order, when the
/// cache is `cache` before the first of them: a data set is projected under
/// the templates that the sets in front of it have left.
pub open spec fn calls(cache: Templates, sets: Seq<SetView>) -> Seq<Call>
    decreases sets.len(),
{
    if sets.len() == 0 {
        Seq::empty()
    } else {
        calls(cache, sets.drop_last()) + (match sets.last() {
            SetView::DataSet(set) => data_set_calls(cache_after(cache, sets.drop_last()), set),
            _ => Seq::empty(),
        })
    }
}

/// Whether `out` is what the projector may give for `calls`: its answers in
/// the order of the calls, the calls it declined left out.
pub open spec fn yields<'a, P: Parser<'a>>(parser: P, calls: Seq<Call>, out: Seq<P::Output>) -> bool
    decreases calls.len(),
{
    if calls.len() == 0 {
        out.len() == 0
    } else {
        let call = calls.last();
        ||| parser.projects(call.0, call.1, None) && yields(parser, calls.drop_last(), out)
        ||| out.len() > 0 && parser.projects(call.0, call.1, Some(out.last())) && yields(
            parser,
            calls.drop_last(),
            out.drop_last(),
        )
    }
}

/// Answers to two runs of calls, put together, answer the two runs put
/// together.
pub proof fn lemma_yields_concat<'a, P: Parser<'a>>(
    parser: P,
    first: Seq<Call>,
    out_first: Seq<P::Output>,
    second: Seq<Call>,
    out_second: Seq<P::Output>,
)
    requires
        yields(parser, first, out_first),
        yields(parser, second, out_second),
    ensures
        yields(parser, first + second, out_first + out_second),
    decreases second.len(),
{
    if second.len() > 0 {
        let call = second.last();
        let before = second.drop_last();
        assert((first + second).drop_last() == first + before);
        if parser.projects(call.0, call.1, None) && yields(parser, before, out_second) {
            lemma_yields_concat(parser, first, out_first, before, out_second);
        } else {
            lemma_yields_concat(parser, first, out_first, before, out_second.drop_last());
            assert((out_first + out_second).drop_last() == out_first + out_second.drop_last());
        }
    }
}

/// A projector that never declines answers every call: there are as many
/// answers as calls, and each answers the call at its place.
pub proof fn lemma_yields_every_call<'a, P: Parser<'a>>(
    parser: P,
    calls: Seq<Call>,
    out: Seq<P::Output>,
)
    requires
        yields(parser, calls, out),
        forall|i: int| 0 <= i < calls.len() ==> !parser.projects(
            (#[trigger] calls[i]).0,
            calls[i].1,
            None,
        ),
    ensures
        out.len() == calls.len(),
        forall|i: int| 0 <= i < calls.len() ==> parser.projects(
            (#[trigger] calls[i]).0,
            calls[i].1,
            Some(out[i]),
        ),
    decreases calls.len(),
{
    if calls.len() > 0 {
        let before = calls.drop_last();
        lemma_yields_every_call(parser, before, out.drop_last());
        assert forall|i: int| 0 <= i < calls.len() implies parser.projects(
            (#[trigger] calls[i]).0,
            calls[i].1,
            Some(out[i]),
        ) by {
            if i < before.len() {
                assert(before[i] == calls[i]);
            }
        }
    }
}

/// Template before data: a data set whose template the cache does not hold
/// asks nothing of the projector, so nothing is emitted for it, and it
/// leaves the cache as it was.
pub proof fn lemma_template_miss<'a, P: Parser<'a>>(
    parser: P,
    cache: Templates,
    set: DataSetView,
    out: Seq<P::Output>,
)
    requires
        !cache.contains_key(set.id),
    ensures
        cache_after(cache, seq![SetView::DataSet(set)]) == cache,
        calls(cache, seq![SetView::DataSet(set)]).len() == 0,
        yields(parser, calls(cache, seq![SetView::DataSet(set)]), out) ==> out.len() == 0,
{
    let sets = seq![SetView::DataSet(set)];
    assert(cache_after(cache, sets.drop_last()) == cache);
    assert(calls(cache, sets.drop_last()).len() == 0);
}

/// Installing a record makes its fields the template of its id, whatever
/// the cache held under that id, and touches no other id.
pub proof fn lemma_install_one(cache: Templates, record: TemplateRecordView)
    ensures
        install(cache, seq![record]) == cache.insert(record.id, record.fields),
{
    let records = seq![record];
    assert(install(cache, records.drop_last()) == cache);
}

/// Template replacement: a template installed under the id of an earlier
/// one supersedes it in full. The cache is as if the earlier one had never
/// been installed, and a data set that follows is split and projected by
/// the fields of the later one.
pub proof fn lemma_template_replacement(
    cache: Templates,
    first: TemplateRecordView,
    second: TemplateRecordView,
    set: DataSetView,
)
    requires
        first.id == second.id,
        set.id == second.id,
    ensures
        cache_after(
            cache,
            seq![SetView::TemplateSet(seq![first]), SetView::TemplateSet(seq![second])],
        ) == cache_after(cache, seq![SetView::TemplateSet(seq![second])]),
        cache_after(cache, seq![SetView::TemplateSet(seq![second])]) == cache.insert(
            second.id,
            second.fields,
        ),
        calls(
            cache,
            seq![
                SetView::TemplateSet(seq![first]),
                SetView::TemplateSet(seq![second]),
                SetView::DataSet(set),
            ],
        ) == split_records(second.fields, set.data).map_values(
            |record: Seq<u8>| (second.fields, DataSetView { id: set.id, data: record }),
        ),
{
    let t1 = SetView::TemplateSet(seq![first]);
    let t2 = SetView::TemplateSet(seq![second]);
    let d = SetView::DataSet(set);
    let none = Seq::<SetView>::empty();
    lemma_install_one(cache, first);
    lemma_install_one(cache, second);
    lemma_install_one(cache.insert(first.id, first.fields), second);
    assert(seq![t1].drop_last() == none);
    assert(seq![t2].drop_last() == none);
    assert(seq![t1, t2].drop_last() == seq![t1]);
    assert(seq![t1, t2, d].drop_last() == seq![t1, t2]);
    assert(cache_after(cache, none) == cache);
    assert(cache_after(cache, seq![t1]) == cache.insert(first.id, first.fields));
    assert(calls(cache, none).len() == 0);
    assert(calls(cache, seq![t1]).len() == 0);
    assert(calls(cache, seq![t1, t2]).len() == 0);
}

/// Installing records leaves the template of every other id as it was.
pub proof fn lemma_install_keeps_others(
    cache: Templates,
    records: Seq<TemplateRecordView>,
    id: u16,
)
    requires
        forall|i: int| 0 <= i < records.len() ==> (#[trigger] records[i]).id != id,
    ensures
        install(cache, records).contains_key(id) == cache.contains_key(id),
        cache.contains_key(id) ==> install(cache, records)[id] == cache[id],
    decreases records.len(),
{
    if records.len() > 0 {
        let before = records.drop_last();
        assert forall|i: int| 0 <= i < before.len() implies (#[trigger] before[i]).id != id by {
            assert(before[i] == records[i]);
        }
        lemma_install_keeps_others(cache, before, id);
        assert(records.last() == records[records.len() - 1]);
    }
}

/// Feeding the sets of two packets one after the other is feeding them all
/// in a row: the cache ends up the same, and the data sets of the second
/// packet are projected under what the first has left.
pub proof fn lemma_sets_in_sequence(cache: Templates, first: Seq<SetView>, second: Seq<SetView>)
    ensures
        cache_after(cache, first + second) == cache_after(cache_after(cache, first), second),
        calls(cache, first + second) == calls(cache, first) + calls(
            cache_after(cache, first),
            second,
        ),
    decreases second.len(),
{
    if second.len() == 0 {
        assert(first + second == first);
    } else {
        let before = second.drop_last();
        lemma_sets_in_sequence(cache, first, before);
        assert((first + second).drop_last() == first + before);
        assert((first + second).last() == second.last());
    }
}

/// Whether every field of a template has a fixed length.
pub open spec fn fixed_stride(fields: Seq<FieldSpecifier>) -> bool {
    forall|i: int| 0 <= i < fields.len() ==> (#[trigger] fields[i]).length != VARIABLE_LENGTH
}

/// The stride of a template of fixed-length fields: the bytes that one
/// record takes, which is the sum of the field lengths.
pub open spec fn stride(fields: Seq<FieldSpecifier>) -> nat
    decreases fields.len(),
{
    if fields.len() == 0 {
        0
    } else {
        fields[0].length as nat + stride(fields.skip(1))
    }
}

/// Under a template of fixed-length fields a record takes the stride, and
/// is there as soon as that many bytes are.
pub proof fn lemma_fixed_record_len(fields: Seq<FieldSpecifier>, data: Seq<u8>)
    requires
        fixed_stride(fields),
    ensures
        record_len(fields, data) == (if data.len() >= stride(fields) {
            Some(stride(fields))
        } else {
            None
        }),
    decreases fields.len(),
{
    if fields.len() > 0 && data.len() >= fields[0].length {
        lemma_fixed_record_len(fields.skip(1), data.skip(fields[0].length as int));
    }
}

/// Stride consistency: under a template of fixed-length fields with stride
/// `S > 0`, a payload of `n * S + r` bytes with `r < S` holds exactly `n`
/// records, the `i`-th of them the bytes from `i * S` up to `(i + 1) * S`;
/// the `r` bytes at the end belong to no record.
pub proof fn lemma_stride(fields: Seq<FieldSpecifier>, payload: Seq<u8>, n: nat, r: nat)
    requires
        fixed_stride(fields),
        payload.len() == n * stride(fields) + r,
        r < stride(fields),
    ensures
        split_records(fields, payload).len() == n,
        forall|i: int|
            0 <= i < n ==> #[trigger] split_records(fields, payload)[i] == payload.subrange(
                i * stride(fields),
                (i + 1) * stride(fields),
            ),
    decreases n,
{
    let s = stride(fields);
    lemma_fixed_record_len(fields, payload);
    if n == 0 {
        assert(n * s == 0) by (nonlinear_arith)
            requires
                n == 0,
        ;
    } else {
        assert(n * s == (n - 1) * s + s) by (nonlinear_arith);
        assert((n - 1) * s >= 0) by (nonlinear_arith)
            requires
                n >= 1,
                s >= 0,
        ;
        lemma_stride(fields, payload.skip(s as int), (n - 1) as nat, r);
        assert forall|i: int| 0 <= i < n implies #[trigger] split_records(fields, payload)[i]
            == payload.subrange(i * s, (i + 1) * s) by {
            assert(i * s + s == (i + 1) * s) by (nonlinear_arith);
            if i > 0 {
                assert((i - 1) * s + s == i * s) by (nonlinear_arith);
                assert((i - 1) * s >= 0) by (nonlinear_arith)
                    requires
                        i >= 1,
                        s >= 0,
                ;
                assert((i + 1) * s <= n * s) by (nonlinear_arith)
                    requires
                        i + 1 <= n,
                        s >= 0,
                ;
            }
        }
    }
}

/// Stride consistency, for a session: a data set whose template has fixed
/// length fields and stride `S > 0`, and whose payload has `n * S + r`
/// bytes with `r < S`, asks for exactly `n` projections, one for each
/// stretch of `S` bytes in order.
pub proof fn lemma_stride_calls(cache: Templates, set: DataSetView, n: nat, r: nat)
    requires
        cache.contains_key(set.id),
        fixed_stride(cache[set.id]),
        set.data.len() == n * stride(cache[set.id]) + r,
        r < stride(cache[set.id]),
    ensures
        data_set_calls(cache, set).len() == n,
        forall|i: int|
            0 <= i < n ==> #[trigger] data_set_calls(cache, set)[i] == (
                cache[set.id],
                DataSetView {
                    id: set.id,
                    data: set.data.subrange(
                        i * stride(cache[set.id]),
                        (i + 1) * stride(cache[set.id]),
                    ),
                },
            ),
{
    lemma_stride(cache[set.id], set.data, n, r);
}

/// Stride consistency, for what is emitted: under the conditions of
/// [`lemma_stride_calls`], a projector that never declines emits exactly `n`
/// answers, the `i`-th of them for the `i`-th stretch of `S` bytes.
pub proof fn lemma_stride_emits<'a, P: Parser<'a>>(
    parser: P,
    cache: Templates,
    set: DataSetView,
    n: nat,
    r: nat,
    out: Seq<P::Output>,
)
    requires
        cache.contains_key(set.id),
        fixed_stride(cache[set.id]),
        set.data.len() == n * stride(cache[set.id]) + r,
        r < stride(cache[set.id]),
        forall|fields: Seq<FieldSpecifier>, record: DataSetView|
            !#[trigger] parser.projects(fields, record, None),
        yields(parser, data_set_calls(cache, set), out),
    ensures
        out.len() == n,
        forall|i: int|
            0 <= i < n ==> parser.projects(
                cache[set.id],
                DataSetView {
                    id: set.id,
                    data: set.data.subrange(
                        i * stride(cache[set.id]),
                        (i + 1) * stride(cache[set.id]),
                    ),
                },
                Some(#[trigger] out[i]),
            ),
{
    let asked = data_set_calls(cache, set);
    lemma_stride_calls(cache, set, n, r);
    lemma_yields_every_call(parser, asked, out);
    assert forall|i: int| 0 <= i < n implies parser.projects(
        cache[set.id],
        DataSetView {
            id: set.id,
            data: set.data.subrange(i * stride(cache[set.id]), (i + 1) * stride(cache[set.id])),
        },
        Some(#[trigger] out[i]),
    ) by {
        assert(parser.projects(asked[i].0, asked[i].1, Some(out[i])));
    }
}

/// The length of the record at the front of `data` under `fields`.
fn record_length(fields: &[FieldSpecifier], data: &[u8]) -> (r: Option<usize>)
    ensures
        match record_len(fields@, data@) {
            None => r is None,
            Some(n) => r matches Some(k) && k == n && n <= data@.len(),
        },
{
    let mut rest = data;
    let mut i: usize = 0;
    assert(fields@.skip(0) == fields@);
    while i < fields.len()
        invariant
            i <= fields@.len(),
            rest@.len() <= data@.len(),
            rest@ == data@.skip(data@.len() - rest@.len()),
            record_len(fields@, data@) == (match record_len(fields@.skip(i as int), rest@) {
                None => None::<nat>,
                Some(n) => Some((data@.len() - rest@.len() + n) as nat),
            }),
        decreases fields@.len() - i,
    {
        assert(fields@.skip(i as int).skip(1) == fields@.skip(i + 1));
        match fields[i].read(rest) {
            None => {
                return None;
            },
            Some((next, _)) => {
                rest = next;
                i = i + 1;
            },
        }
    }
    Some(data.len() - rest.len())
}

/// The stride of a template: there is one exactly where every field has a
/// fixed length, and it is handed back exactly where it does not go beyond
/// `limit`, the number of bytes at hand.
fn fixed_stride_within(fields: &[FieldSpecifier], limit: usize) -> (r: Option<usize>)
    ensures
        match r {
            Some(s) => fixed_stride(fields@) && s == stride(fields@) && s <= limit,
            None => !fixed_stride(fields@) || stride(fields@) > limit,
        },
{
    let mut total: usize = 0;
    let mut i: usize = 0;
    assert(fields@.skip(0) == fields@);
    while i < fields.len()
        invariant
            i <= fields@.len(),
            total <= limit,
            stride(fields@) == total + stride(fields@.skip(i as int)),
            forall|k: int| 0 <= k < i ==> (#[trigger] fields@[k]).length != VARIABLE_LENGTH,
        decreases fields@.len() - i,
    {
        let length = fields[i].length;
        assert(fields@.skip(i as int).skip(1) == fields@.skip(i + 1));
        if length == VARIABLE_LENGTH || limit - total < length as usize {
            return None;
        }
        total = total + length as usize;
        i = i + 1;
    }
    Some(total)
}

/// Splits the payload of a data set into its records. Where the template
/// has a fixed stride the payload is cut at multiples of it; otherwise each
/// record is measured field by field.
fn split<'a>(fields: &[FieldSpecifier], payload: &'a [u8]) -> (r: Vec<&'a [u8]>)
    ensures
        r@.map_values(|record: &'a [u8]| record@) == split_records(fields@, payload@),
{
    let fixed = fixed_stride_within(fields, payload.len());
    let mut records: Vec<&'a [u8]> = Vec::new();
    let mut rest = payload;
    loop
        invariant
            fixed matches Some(s) ==> fixed_stride(fields@) && s == stride(fields@),
            split_records(fields@, payload@) == records@.map_values(|record: &'a [u8]| record@)
                + split_records(fields@, rest@),
        ensures
            split_records(fields@, payload@) == records@.map_values(|record: &'a [u8]| record@),
        decreases rest@.len(),
    {
        let length = match fixed {
            Some(s) => {
                proof {
                    lemma_fixed_record_len(fields@, rest@);
                }
                if rest.len() >= s {
                    Some(s)
                } else {
                    None
                }
            },
            None => record_length(fields, rest),
        };
        match length {
            Some(n) if n > 0 => {
                records.push(&rest[0..n]);
                rest = &rest[n..rest.len()];
            },
            _ => {
                break ;
            },
        }
    }
    records
}

/// A collector's view of one exporter: the templates seen so far, and the
/// projector that data records are handed to.
pub struct Session<P> {
    templates: HashMap<u16, Vec<FieldSpecifier>>,
    parser: P,
}

impl<P> Session<P> {
    /// The template cache: the fields of each template id seen so far.
    pub closed spec fn templates(&self) -> Templates {
        Map::new(|id: u16| self.templates@.contains_key(id), |id: u16| self.templates@[id]@)
    }

    /// The projector of this session.
    pub closed spec fn projector(&self) -> P {
        self.parser
    }

    /// A session that knows no template yet.
    pub fn new(parser: P) -> (s: Self)
        ensures
            s.templates() == Templates::empty(),
            s.projector() == parser,
    {
        Session { templates: HashMap::new(), parser }
    }

    /// The projector of this session.
    pub fn get_parser(&self) -> (p: &P)
        ensures
            *p == self.projector(),
    {
        &self.parser
    }

    /// Installs template records in order; a record replaces what the cache
    /// held under its id.
    pub fn add_records(&mut self, records: &[TemplateRecord])
        ensures
            final(self).templates() == install(
                old(self).templates(),
                records@.map_values(|r: TemplateRecord| r@),
            ),
            final(self).projector() == old(self).projector(),
    {
        let ghost views = records@.map_values(|r: TemplateRecord| r@);
        let mut i: usize = 0;
        while i < records.len()
            invariant
                i <= records@.len(),
                views == records@.map_values(|r: TemplateRecord| r@),
                self.templates() == install(old(self).templates(), views.take(i as int)),
                self.projector() == old(self).projector(),
            decreases records@.len() - i,
        {
            let record = &records[i];
            self.templates.insert(record.id, slice_to_vec(record.fields.as_slice()));
            assert(views.take(i + 1).drop_last() == views.take(i as int));
            i = i + 1;
        }
        assert(views.take(i as int) == views);
    }
}

impl<'a, P: Parser<'a>> Session<P> {
    /// Projects the records of one data set under the template that its id
    /// names. A data set whose template is not known gives nothing.
    pub fn parse_data_set(&self, set: &DataSet<'a>) -> (out: Vec<P::Output>)
        ensures
            yields(self.projector(), data_set_calls(self.templates(), set@), out@),
    {
        let mut out: Vec<P::Output> = Vec::new();
        let fields = match self.templates.get(&set.id) {
            Some(fields) => fields.as_slice(),
            None => {
                return out;
            },
        };
        let records = split(fields, set.data);
        let ghost all = data_set_calls(self.templates(), set@);
        let mut i: usize = 0;
        while i < records.len()
            invariant
                i <= records@.len(),
                fields@ == self.templates()[set.id],
                all == data_set_calls(self.templates(), set@),
                all.len() == records@.len(),
                forall|k: int|
                    0 <= k < all.len() ==> #[trigger] all[k] == (
                        fields@,
                        DataSetView { id: set.id, data: records@[k]@ },
                    ),
                yields(self.projector(), all.take(i as int), out@),
            decreases records@.len() - i,
        {
            let record = DataSet { id: set.id, data: records[i] };
            let ghost before = out@;
            assert(all.take(i + 1).drop_last() == all.take(i as int));
            match self.parser.parse(fields, &record) {
                None => {},
                Some(flow) => {
                    out.push(flow);
                    assert(out@.drop_last() == before);
                },
            }
            i = i + 1;
        }
        assert(all.take(i as int) == all);
        out
    }

    /// Feeds one packet to the session. Its sets are taken in wire order:
    /// a template set is installed in the cache, a data set is projected
    /// under the cache as the sets in front of it have left it, and an
    /// options set is passed over.
    pub fn parse(&mut self, packet: &Packet<'a>) -> (out: Vec<P::Output>)
        ensures
            final(self).templates() == cache_after(old(self).templates(), packet@.sets),
            final(self).projector() == old(self).projector(),
            yields(old(self).projector(), calls(old(self).templates(), packet@.sets), out@),
    {
        let mut out: Vec<P::Output> = Vec::new();
        let ghost sets = packet@.sets;
        let mut i: usize = 0;
        while i < packet.sets.len()
            invariant
                i <= packet.sets@.len(),
                sets == packet@.sets,
                self.templates() == cache_after(old(self).templates(), sets.take(i as int)),
                self.projector() == old(self).projector(),
                yields(old(self).projector(), calls(old(self).templates(), sets.take(i as int)), out@),
            decreases packet.sets@.len() - i,
        {
            let ghost seen = calls(old(self).templates(), sets.take(i as int));
            assert(sets.take(i + 1).drop_last() == sets.take(i as int));
            match &packet.sets[i] {
                IpfixSet::TemplateSet(records) => {
                    self.add_records(records.as_slice());
                },
                IpfixSet::DataSet(set) => {
                    let mut flows = self.parse_data_set(set);
                    proof {
                        lemma_yields_concat(
                            self.projector(),
                            seen,
                            out@,
                            data_set_calls(self.templates(), set@),
                            flows@,
                        );
                    }
                    out.append(&mut flows);
                },
                IpfixSet::OptionsSet => {},
            }
            i = i + 1;
        }
        assert(sets.take(i as int) == sets);
        out
    }
}

/// The records that a dictionary reads out of one data record: one for each
/// field of the template, in order. A field that is cut short takes what is
/// left of the data, as unknown, and leaves nothing for the fields behind it.
pub open spec fn decoded_fields(
    dict: Dictionary,
    fields: Seq<FieldSpecifier>,
    data: Seq<u8>,
) -> Seq<RecordView>
    decreases fields.len(),
{
    if fields.len() == 0 {
        Seq::empty()
    } else {
        match fields[0].extent(data) {
            None => seq![RecordView { id: fields[0].id, value: ValueView::Unknown(data) }]
                + decoded_fields(dict, fields.skip(1), Seq::empty()),
            Some((start, end)) => seq![
                RecordView {
                    id: fields[0].id,
                    value: field_value(dict, fields[0].id, data.subrange(start as int, end as int)),
                },
            ] + decoded_fields(dict, fields.skip(1), data.skip(end as int)),
        }
    }
}

/// Every field of the template has its record, at its place and under its
/// id, however short the data is.
pub proof fn lemma_decoded_fields_ids(
    dict: Dictionary,
    fields: Seq<FieldSpecifier>,
    data: Seq<u8>,
)
    ensures
        decoded_fields(dict, fields, data).len() == fields.len(),
        forall|i: int|
            0 <= i < fields.len() ==> (#[trigger] decoded_fields(dict, fields, data)[i]).id
                == fields[i].id,
    decreases fields.len(),
{
    if fields.len() > 0 {
        let rest = match fields[0].extent(data) {
            None => Seq::empty(),
            Some((_, end)) => data.skip(end as int),
        };
        lemma_decoded_fields_ids(dict, fields.skip(1), rest);
    }
}

/// The generic projector: decodes every field of a record by a dictionary
/// of field ids.
pub struct FieldParser {
    parsers: HashMap<u16, NameFn>,
}

impl View for FieldParser {
    type V = Dictionary;

    /// The dictionary of this projector.
    closed spec fn view(&self) -> Dictionary {
        dictionary(self.parsers@)
    }
}

impl FieldParser {
    /// Starts from an empty dictionary.
    pub fn builder() -> (b: FieldParserBuilder)
        ensures
            b@ == Dictionary::empty(),
    {
        FieldParserBuilder::new()
    }
}

impl<'a> Parser<'a> for FieldParser {
    type Output = RecordSet<'a>;

    open spec fn projects(
        &self,
        fields: Seq<FieldSpecifier>,
        set: DataSetView,
        out: Option<RecordSet<'a>>,
    ) -> bool {
        out matches Some(records) && records@ == (RecordSetView {
            id: set.id,
            records: decoded_fields(self@, fields, set.data),
        })
    }

    fn parse(&self, fields: &[FieldSpecifier], set: &DataSet<'a>) -> (out: Option<RecordSet<'a>>) {
        let mut result: Vec<Record<'a>> = Vec::new();
        let mut input = set.data;
        let mut i: usize = 0;
        assert(fields@.skip(0) == fields@);
        while i < fields.len()
            invariant
                i <= fields@.len(),
                decoded_fields(self@, fields@, set.data@) == result@.map_values(
                    |r: Record<'a>| r@,
                ) + decoded_fields(self@, fields@.skip(i as int), input@),
            decreases fields@.len() - i,
        {
            let field = fields[i];
            assert(fields@.skip(i as int).skip(1) == fields@.skip(i + 1));
            let (value, rest) = match field.read(input) {
                Some((rest, data)) => (decode_field(&self.parsers, field.id, data), rest),
                None => {
                    let rest = &input[0..0];
                    assert(rest@ == Seq::<u8>::empty());
                    (Value::Unknown(input), rest)
                },
            };
            let record = Record::new(field.id, value);
            result.push(record);
            input = rest;
            i = i + 1;
        }
        Some(RecordSet::new(set.id, result))
    }
}

/// Puts a dictionary together for a [`FieldParser`].
pub struct FieldParserBuilder {
    parsers: HashMap<u16, NameFn>,
}

impl View for FieldParserBuilder {
    type V = Dictionary;

    /// The dictionary as it stands.
    closed spec fn view(&self) -> Dictionary {
        dictionary(self.parsers@)
    }
}

impl FieldParserBuilder {
    fn new() -> (b: Self)
        ensures
            b@ == Dictionary::empty(),
    {
        FieldParserBuilder { parsers: HashMap::new() }
    }

    /// Enters the stock fields; they replace what was entered under their
    /// ids before.
    pub fn with_default_fields(self) -> (b: Self)
        ensures
            b@ == with_entries(self@, DEFAULT_FIELDS@),
    {
        let mut parsers = self.parsers;
        add_default_field_parsers(&mut parsers);
        FieldParserBuilder { parsers }
    }

    /// Enters one field; it replaces what was entered under `id` before.
    pub fn with_field(self, id: u16, name: &str, fe: FieldExtractor) -> (b: Self)
        ensures
            b@ == self@.insert(id, (name@, fe)),
    {
        let mut parsers = self.parsers;
        parsers.insert(id, NameFn(name.to_owned(), fe));
        FieldParserBuilder { parsers }
    }

    /// The projector that decodes by the dictionary as it stands.
    pub fn build(self) -> (p: FieldParser)
        ensures
            p@ == self@,
    {
        FieldParser { parsers: self.parsers }
    }
}

/// What [`DebugParser`] has to say of one data record: for each field that
/// is there in full its id, its name where the dictionary knows one, and
/// its value by the dictionary.
pub open spec fn described(
    dict: Dictionary,
    fields: Seq<FieldSpecifier>,
    data: Seq<u8>,
) -> Seq<(u16, Option<Seq<char>>, ValueView)> {
    readable_fields(fields, data).map_values(
        |p: (FieldSpecifier, Seq<u8>)|
            (
                p.0.id,
                if dict.contains_key(p.0.id) {
                    Some(dict[p.0.id].0)
                } else {
                    None
                },
                field_value(dict, p.0.id, p.1),
            ),
    )
}

/// The view of one line of [`DebugParser::describe`].
pub open spec fn line_view(line: (u16, Option<&str>, Value<'_>)) -> (
    u16,
    Option<Seq<char>>,
    ValueView,
) {
    (
        line.0,
        match line.1 {
            Some(name) => Some(name@),
            None => None,
        },
        line.2@,
    )
}

/// A projector that stands in front of another one and can say, field by
/// field, what a record holds before it hands the record on.
pub struct DebugParser<T> {
    parsers: HashMap<u16, NameFn>,
    delegate: T,
}

impl<T> DebugParser<T> {
    /// The dictionary by which fields are named and decoded.
    pub closed spec fn names(&self) -> Dictionary {
        dictionary(self.parsers@)
    }

    /// The projector that records are handed on to.
    pub closed spec fn inner(&self) -> T {
        self.delegate
    }

    /// Stands in front of `parser`, with the stock dictionary.
    pub fn new(parser: T) -> (p: Self)
        ensures
            p.names() == default_dictionary(),
            p.inner() == parser,
    {
        DebugParser { parsers: get_default_field_parsers(), delegate: parser }
    }

    /// Enters one field in the dictionary; it replaces what was entered
    /// under `id` before.
    pub fn set_parser(&mut self, id: u16, name: &str, extractor: FieldExtractor) -> (r: &mut Self)
        ensures
            r.names() == old(self).names().insert(id, (name@, extractor)),
            r.inner() == old(self).inner(),
            *final(self) == *final(r),
    {
        self.parsers.insert(id, NameFn(name.to_owned(), extractor));
        self
    }

    /// The fields of one data record that are there in full, each with its
    /// id, its name and its value.
    pub fn describe<'s, 'a>(&'s self, fields: &[FieldSpecifier], set: &DataSet<'a>) -> (lines: Vec<
        (u16, Option<&'s str>, Value<'a>),
    >)
        ensures
            lines@.map_values(|l: (u16, Option<&'s str>, Value<'a>)| line_view(l)) == described(
                self.names(),
                fields@,
                set.data@,
            ),
    {
        let pairs = set.with_fields(fields);
        let ghost readable = readable_fields(fields@, set.data@);
        let ghost all = described(self.names(), fields@, set.data@);
        let mut lines: Vec<(u16, Option<&'s str>, Value<'a>)> = Vec::new();
        let mut i: usize = 0;
        while i < pairs.len()
            invariant
                i <= pairs@.len(),
                readable == pairs@.map_values(|p: (FieldSpecifier, &'a [u8])| (p.0, p.1@)),
                readable == readable_fields(fields@, set.data@),
                all == described(self.names(), fields@, set.data@),
                lines@.map_values(|l: (u16, Option<&'s str>, Value<'a>)| line_view(l)) == all.take(
                    i as int,
                ),
            decreases pairs@.len() - i,
        {
            let (field, data) = pairs[i];
            let name: Option<&'s str> = match self.parsers.get(&field.id) {
                Some(entry) => Some(entry.0.as_str()),
                None => None,
            };
            let value = decode_field(&self.parsers, field.id, data);
            lines.push((field.id, name, value));
            assert(all.take(i + 1) == all.take(i as int).push(all[i as int]));
            i = i + 1;
        }
        lines
    }
}

impl<'a, T: Parser<'a>> Parser<'a> for DebugParser<T> {
    type Output = T::Output;

    open spec fn projects(
        &self,
        fields: Seq<FieldSpecifier>,
        set: DataSetView,
        out: Option<T::Output>,
    ) -> bool {
        self.inner().projects(fields, set, out)
    }

    fn parse(&self, fields: &[FieldSpecifier], set: &DataSet<'a>) -> (out: Option<T::Output>) {
        self.delegate.parse(fields, set)
    }
}

} // verus!
