//! The statistics aggregator: pure reduction of the field/value pairs of a
//! completed analytical query into typed per-bucket records.

use vstd::prelude::*;
use crate::numeric::{
    parse_decimal, parse_u32, spec_parse_decimal, digits_val, valid_uint, Decimal,
};
use crate::text::{str_eq, trim, trim_spec};

verus! {

/// One named field of one query result row, with its still-unparsed value.
pub struct ResultField {
    pub field: String,
    pub value: String,
}

/// The mathematical content of a [`ResultField`].
pub ghost struct FieldView {
    pub field: Seq<char>,
    pub value: Seq<char>,
}

impl DeepView for ResultField {
    type V = FieldView;

    open spec fn deep_view(&self) -> FieldView {
        FieldView { field: self.field@, value: self.value@ }
    }
}

/// A recognized metric field whose value failed to parse: fatal for the
/// whole run, since it means the query schema has drifted.
#[derive(Debug)]
pub struct ParseError {
    pub field: String,
    pub value: String,
}

/// The reduced statistics of one aggregation bucket: a count of cold
/// starts, duration percentiles, and the memory-size grouping key.
#[derive(Clone, Copy, Debug, PartialEq, Eq, Structural)]
pub struct Stats {
    pub mem: u32,
    pub count: u32,
    pub stddev: Decimal,
    pub min: Decimal,
    pub p50: Decimal,
    pub p75: Decimal,
    pub p99: Decimal,
    pub p995: Decimal,
    pub p999: Decimal,
    pub max: Decimal,
}

impl Stats {
    /// The record every reduction starts from: all metrics zero.
    pub open spec fn spec_default() -> Stats {
        Stats {
            mem: 0,
            count: 0,
            stddev: Decimal::spec_zero(),
            min: Decimal::spec_zero(),
            p50: Decimal::spec_zero(),
            p75: Decimal::spec_zero(),
            p99: Decimal::spec_zero(),
            p995: Decimal::spec_zero(),
            p999: Decimal::spec_zero(),
            max: Decimal::spec_zero(),
        }
    }
}

impl Default for Stats {
    /// The all-zero record; see [`Stats::spec_default`].
    fn default() -> (r: Stats)
        ensures
            r == Stats::spec_default(),
    {
        Stats {
            mem: 0,
            count: 0,
            stddev: Decimal::zero(),
            min: Decimal::zero(),
            p50: Decimal::zero(),
            p75: Decimal::zero(),
            p99: Decimal::zero(),
            p995: Decimal::zero(),
            p999: Decimal::zero(),
            max: Decimal::zero(),
        }
    }
}

/// What feeding one field/value pair into a record yields: the field name,
/// with surrounding whitespace ignored, selects exactly one attribute, whose
/// value is parsed as the numeric type of that metric; an unrecognized name
/// leaves the record unchanged; a recognized name with a malformed value is
/// a parse error (`None`), never a silent default.
pub open spec fn spec_update(s: Stats, field: Seq<char>, value: Seq<char>) -> Option<Stats> {
    let f = trim_spec(field);
    if f == "memorySize"@ {
        if valid_uint(value, u32::MAX as nat) {
            Some(Stats { mem: digits_val(value) as u32, ..s })
        } else {
            None
        }
    } else if f == "count"@ {
        if valid_uint(value, u32::MAX as nat) {
            Some(Stats { count: digits_val(value) as u32, ..s })
        } else {
            None
        }
    } else if f == "stddev"@ {
        match spec_parse_decimal(value) {
            Some(d) => Some(Stats { stddev: d, ..s }),
            None => None,
        }
    } else if f == "min"@ {
        match spec_parse_decimal(value) {
            Some(d) => Some(Stats { min: d, ..s }),
            None => None,
        }
    } else if f == "max"@ {
        match spec_parse_decimal(value) {
            Some(d) => Some(Stats { max: d, ..s }),
            None => None,
        }
    } else if f == "p50"@ {
        match spec_parse_decimal(value) {
            Some(d) => Some(Stats { p50: d, ..s }),
            None => None,
        }
    } else if f == "p75"@ {
        match spec_parse_decimal(value) {
            Some(d) => Some(Stats { p75: d, ..s }),
            None => None,
        }
    } else if f == "p99"@ {
        match spec_parse_decimal(value) {
            Some(d) => Some(Stats { p99: d, ..s }),
            None => None,
        }
    } else if f == "p995"@ {
        match spec_parse_decimal(value) {
            Some(d) => Some(Stats { p995: d, ..s }),
            None => None,
        }
    } else if f == "p999"@ {
        match spec_parse_decimal(value) {
            Some(d) => Some(Stats { p999: d, ..s }),
            None => None,
        }
    } else {
        Some(s)
    }
}

impl Stats {
    /// Feed one field/value pair into the record; see [`spec_update`].
    ///
    /// On a parse error the record is left exactly as it was and the error
    /// carries the offending pair.
    pub fn update(&mut self, field: &str, value: &str) -> (r: Result<(), ParseError>)
        ensures
            match spec_update(*old(self), field@, value@) {
                Some(s2) => r is Ok && *final(self) == s2,
                None => r is Err && *final(self) == *old(self),
            },
            match r {
                Ok(u) => true,
                Err(pe) => pe.field@ == field@ && pe.value@ == value@,
            },
    {
        let f = trim(field);
        if str_eq(f, "memorySize") {
            match parse_u32(value) {
                Some(v) => {
                    self.mem = v;
                    Ok(())
                },
                None => Err(ParseError { field: field.to_owned(), value: value.to_owned() }),
            }
        } else if str_eq(f, "count") {
            match parse_u32(value) {
                Some(v) => {
                    self.count = v;
                    Ok(())
                },
                None => Err(ParseError { field: field.to_owned(), value: value.to_owned() }),
            }
        } else if str_eq(f, "stddev") {
            match parse_decimal(value) {
                Some(d) => {
                    self.stddev = d;
                    Ok(())
                },
                None => Err(ParseError { field: field.to_owned(), value: value.to_owned() }),
            }
        } else if str_eq(f, "min") {
            match parse_decimal(value) {
                Some(d) => {
                    self.min = d;
                    Ok(())
                },
                None => Err(ParseError { field: field.to_owned(), value: value.to_owned() }),
            }
        } else if str_eq(f, "max") {
            match parse_decimal(value) {
                Some(d) => {
                    self.max = d;
                    Ok(())
                },
                None => Err(ParseError { field: field.to_owned(), value: value.to_owned() }),
            }
        } else if str_eq(f, "p50") {
            match parse_decimal(value) {
                Some(d) => {
                    self.p50 = d;
                    Ok(())
                },
                None => Err(ParseError { field: field.to_owned(), value: value.to_owned() }),
            }
        } else if str_eq(f, "p75") {
            match parse_decimal(value) {
                Some(d) => {
                    self.p75 = d;
                    Ok(())
                },
                None => Err(ParseError { field: field.to_owned(), value: value.to_owned() }),
            }
        } else if str_eq(f, "p99") {
            match parse_decimal(value) {
                Some(d) => {
                    self.p99 = d;
                    Ok(())
                },
                None => Err(ParseError { field: field.to_owned(), value: value.to_owned() }),
            }
        } else if str_eq(f, "p995") {
            match parse_decimal(value) {
                Some(d) => {
                    self.p995 = d;
                    Ok(())
                },
                None => Err(ParseError { field: field.to_owned(), value: value.to_owned() }),
            }
        } else if str_eq(f, "p999") {
            match parse_decimal(value) {
                Some(d) => {
                    self.p999 = d;
                    Ok(())
                },
                None => Err(ParseError { field: field.to_owned(), value: value.to_owned() }),
            }
        } else {
            Ok(())
        }
    }
}

/// Folding one row's fields into a fresh record, pair by pair in row order;
/// an error carries the first pair that failed to parse.
pub open spec fn spec_fold_group(s: Stats, fields: Seq<FieldView>) -> Result<Stats, FieldView>
    decreases fields.len(),
{
    if fields.len() == 0 {
        Ok(s)
    } else {
        match spec_update(s, fields.first().field, fields.first().value) {
            Some(s2) => spec_fold_group(s2, fields.drop_first()),
            None => Err(fields.first()),
        }
    }
}

/// The grouped reduction: each row group becomes one record; records whose
/// memory-size key stayed zero are dropped as incomplete groups; the first
/// parse failure, in group order then field order, fails the whole
/// reduction.
pub open spec fn spec_reduce(groups: Seq<Seq<FieldView>>) -> Result<Seq<Stats>, FieldView>
    decreases groups.len(),
{
    if groups.len() == 0 {
        Ok(Seq::<Stats>::empty())
    } else {
        match spec_reduce(groups.drop_last()) {
            Err(e) => Err(e),
            Ok(rest) => match spec_fold_group(Stats::spec_default(), groups.last()) {
                Err(f) => Err(f),
                Ok(st) => Ok(
                    if st.mem != 0 {
                        rest.push(st)
                    } else {
                        rest
                    },
                ),
            },
        }
    }
}

/// Once a prefix of the groups fails to reduce, the whole sequence fails
/// with the same first error.
proof fn lemma_reduce_error_persists(groups: Seq<Seq<FieldView>>, i: int)
    requires
        0 <= i <= groups.len(),
        spec_reduce(groups.take(i)) is Err,
    ensures
        spec_reduce(groups) == spec_reduce(groups.take(i)),
    decreases groups.len() - i,
{
    if i == groups.len() {
        assert(groups.take(i) =~= groups);
    } else {
        assert(groups.take(i + 1).drop_last() =~= groups.take(i));
        lemma_reduce_error_persists(groups, i + 1);
    }
}

/// GROUPED REDUCTION LAW. A successful reduction never delivers a record
/// whose memory-size grouping key stayed zero: such a record means its
/// group lacked the dimension field, and it is dropped as incomplete.
pub proof fn lemma_reduce_drops_zero_mem(groups: Seq<Seq<FieldView>>)
    ensures
        match spec_reduce(groups) {
            Ok(sts) => forall|i: int| 0 <= i < sts.len() ==> #[trigger] sts[i].mem != 0,
            Err(f) => true,
        },
    decreases groups.len(),
{
    if groups.len() > 0 {
        lemma_reduce_drops_zero_mem(groups.drop_last());
    }
}

/// Reduce the rows of a completed query; see [`spec_reduce`].
pub fn reduce(groups: &Vec<Vec<ResultField>>) -> (r: Result<Vec<Stats>, ParseError>)
    ensures
        match spec_reduce(groups.deep_view()) {
            Ok(sts) => r is Ok,
            Err(f) => r is Err,
        },
        match r {
            Ok(v) => spec_reduce(groups.deep_view()) == Ok::<Seq<Stats>, FieldView>(v@),
            Err(pe) => spec_reduce(groups.deep_view()) == Err::<Seq<Stats>, FieldView>(
                FieldView { field: pe.field@, value: pe.value@ },
            ),
        },
{
    let ghost dv = groups.deep_view();
    let mut out: Vec<Stats> = Vec::new();
    let mut i: usize = 0;
    while i < groups.len()
        invariant
            0 <= i <= groups.len(),
            dv == groups.deep_view(),
            dv.len() == groups.len(),
            spec_reduce(dv.take(i as int)) == Ok::<Seq<Stats>, FieldView>(out@),
        decreases groups.len() - i,
    {
        let group = &groups[i];
        let ghost gv = dv[i as int];
        proof {
            assert(gv == group.deep_view());
        }
        let mut cur = Stats::default();
        let mut j: usize = 0;
        let mut failed: Option<ParseError> = None;
        proof {
            assert(gv.skip(0) =~= gv);
        }
        while j < group.len()
            invariant
                0 <= j <= group.len(),
                gv == group.deep_view(),
                gv.len() == group.len(),
                match failed {
                    None => spec_fold_group(Stats::spec_default(), gv) == spec_fold_group(
                        cur,
                        gv.skip(j as int),
                    ),
                    Some(pe) => spec_fold_group(Stats::spec_default(), gv) == Err::<
                        Stats,
                        FieldView,
                    >(FieldView { field: pe.field@, value: pe.value@ }),
                },
                failed is Some ==> j == group.len(),
            decreases group.len() - j,
        {
            proof {
                assert(gv.skip(j as int).first() == gv[j as int]);
                assert(gv.skip(j as int).drop_first() =~= gv.skip(j as int + 1));
            }
            let res = cur.update(group[j].field.as_str(), group[j].value.as_str());
            match res {
                Ok(u) => {
                    j = j + 1;
                },
                Err(pe) => {
                    failed = Some(pe);
                    j = group.len();
                },
            }
        }
        match failed {
            Some(pe) => {
                proof {
                    assert(dv.take(i as int + 1).drop_last() =~= dv.take(i as int));
                    assert(dv.take(i as int + 1).last() == gv);
                    lemma_reduce_error_persists(dv, i as int + 1);
                }
                return Err(pe);
            },
            None => {
                proof {
                    assert(gv.skip(group.len() as int) =~= Seq::<FieldView>::empty());
                    assert(spec_fold_group(Stats::spec_default(), gv) == Ok::<Stats, FieldView>(
                        cur,
                    ));
                    assert(dv.take(i as int + 1).drop_last() =~= dv.take(i as int));
                    assert(dv.take(i as int + 1).last() == gv);
                }
                if cur.mem != 0 {
                    out.push(cur);
                }
                i = i + 1;
            },
        }
    }
    proof {
        assert(dv.take(groups.len() as int) =~= dv);
    }
    Ok(out)
}

} // verus!
