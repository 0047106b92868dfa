//! Statement builders and finalizers. A builder owns one optional slot per
//! field of its target record and accumulates the flattened token sequence
//! one labeled token at a time; the finalizer then moves every slot into the
//! required record, reporting a missing-field error for any slot never set.
use vstd::prelude::*;

use crate::ast::{
    ColumnDef, ColumnDefV, CreateTable, CreateTableV, ErrorV, FieldName, InsertStmnt, InsertStmntV,
    ParseError, SelectStmnt, SelectStmntV, SqlType, StmntKind,
};
use crate::tokens::{tokens_view, Rule, Token, TokenV};

verus! {

/// The view of an optional string slot.
pub open spec fn opt_view(o: Option<String>) -> Option<Seq<char>> {
    match o {
        Some(s) => Some(s@),
        None => None,
    }
}

/// A column definition under accumulation: either field may still be absent.
#[derive(Debug)]
pub struct ColumnDefOption {
    pub column_name: Option<String>,
    pub column_type: Option<SqlType>,
}

/// Spec model of a column definition under accumulation.
pub struct ColumnDefOptionV {
    pub column_name: Option<Seq<char>>,
    pub column_type: Option<SqlType>,
}

impl View for ColumnDefOption {
    type V = ColumnDefOptionV;

    open spec fn view(&self) -> ColumnDefOptionV {
        ColumnDefOptionV {
            column_name: opt_view(self.column_name),
            column_type: self.column_type,
        }
    }
}

/// The view of a sequence of accumulating column definitions.
pub open spec fn defs_view(s: Seq<ColumnDefOption>) -> Seq<ColumnDefOptionV> {
    s.map_values(|d: ColumnDefOption| d@)
}

/// A `CREATE TABLE` statement under accumulation.
#[derive(Debug)]
pub struct CreateTableOption {
    pub table_name: Option<String>,
    pub column_defs: Vec<ColumnDefOption>,
}

/// Spec model of a `CREATE TABLE` statement under accumulation.
pub struct CreateTableOptionV {
    pub table_name: Option<Seq<char>>,
    pub column_defs: Seq<ColumnDefOptionV>,
}

impl View for CreateTableOption {
    type V = CreateTableOptionV;

    open spec fn view(&self) -> CreateTableOptionV {
        CreateTableOptionV {
            table_name: opt_view(self.table_name),
            column_defs: defs_view(self.column_defs@),
        }
    }
}

/// A select statement under accumulation.
#[derive(Debug)]
pub struct SelectStmntOption {
    pub table_name: Option<String>,
    pub select_columns: Option<String>,
}

/// Spec model of a select statement under accumulation.
pub struct SelectStmntOptionV {
    pub table_name: Option<Seq<char>>,
    pub select_columns: Option<Seq<char>>,
}

impl View for SelectStmntOption {
    type V = SelectStmntOptionV;

    open spec fn view(&self) -> SelectStmntOptionV {
        SelectStmntOptionV {
            table_name: opt_view(self.table_name),
            select_columns: opt_view(self.select_columns),
        }
    }
}

/// The view of a sequence of optional strings.
pub open spec fn opts_view(s: Seq<Option<String>>) -> Seq<Option<Seq<char>>> {
    s.map_values(|o: Option<String>| opt_view(o))
}

/// An insert statement under accumulation.
#[derive(Debug)]
pub struct InsertStmntOption {
    pub table_name: Option<String>,
    pub columns: Vec<Option<String>>,
    pub values: Vec<Option<String>>,
}

/// Spec model of an insert statement under accumulation.
pub struct InsertStmntOptionV {
    pub table_name: Option<Seq<char>>,
    pub columns: Seq<Option<Seq<char>>>,
    pub values: Seq<Option<Seq<char>>>,
}

impl View for InsertStmntOption {
    type V = InsertStmntOptionV;

    open spec fn view(&self) -> InsertStmntOptionV {
        InsertStmntOptionV {
            table_name: opt_view(self.table_name),
            columns: opts_view(self.columns@),
            values: opts_view(self.values@),
        }
    }
}

/// The empty create-table accumulator.
pub open spec fn create_init() -> CreateTableOptionV {
    CreateTableOptionV { table_name: None, column_defs: Seq::empty() }
}

/// One accumulation step of the create-table builder. A table name overwrites
/// the slot; a column name opens a new definition slot; a column type must
/// both spell a recognized type and find the most recently opened definition
/// slot still incomplete — the builder validates this adjacency rather than
/// trusting token positions. Every other label is ignored.
pub open spec fn create_step(st: CreateTableOptionV, t: TokenV) -> Result<
    CreateTableOptionV,
    ErrorV,
> {
    match t.rule {
        Rule::TableName => Ok(
            CreateTableOptionV { table_name: Some(t.text), column_defs: st.column_defs },
        ),
        Rule::ColumnName => Ok(
            CreateTableOptionV {
                table_name: st.table_name,
                column_defs: st.column_defs.push(
                    ColumnDefOptionV { column_name: Some(t.text), column_type: None },
                ),
            },
        ),
        Rule::ColumnType => match SqlType::from_keyword(t.text) {
            Err(e) => Err(e),
            Ok(ty) => {
                if st.column_defs.len() > 0 && st.column_defs.last().column_type is None {
                    Ok(
                        CreateTableOptionV {
                            table_name: st.table_name,
                            column_defs: st.column_defs.update(
                                st.column_defs.len() - 1,
                                ColumnDefOptionV {
                                    column_name: st.column_defs.last().column_name,
                                    column_type: Some(ty),
                                },
                            ),
                        },
                    )
                } else {
                    Err(ErrorV::MissingField(StmntKind::CreateTable, FieldName::ColumnName))
                }
            },
        },
        _ => Ok(st),
    }
}

/// The create-table builder state after consuming `toks`.
pub open spec fn build_create(toks: Seq<TokenV>) -> Result<CreateTableOptionV, ErrorV>
    decreases toks.len(),
{
    if toks.len() == 0 {
        Ok(create_init())
    } else {
        match build_create(toks.drop_last()) {
            Ok(st) => create_step(st, toks.last()),
            Err(e) => Err(e),
        }
    }
}

/// A builder error is final: the tokens after it change nothing.
pub proof fn lemma_build_create_err(toks: Seq<TokenV>, i: int)
    requires
        0 <= i <= toks.len(),
        build_create(toks.take(i)) is Err,
    ensures
        build_create(toks) == build_create(toks.take(i)),
    decreases toks.len() - i,
{
    if i < toks.len() {
        assert(toks.take(i + 1).drop_last() =~= toks.take(i));
        lemma_build_create_err(toks, i + 1);
    } else {
        assert(toks.take(i) =~= toks);
    }
}

/// The empty select accumulator.
pub open spec fn select_init() -> SelectStmntOptionV {
    SelectStmntOptionV { table_name: None, select_columns: None }
}

/// One accumulation step of the select builder: a table name or the wildcard
/// marker sets its slot, anything else is ignored.
pub open spec fn select_step(st: SelectStmntOptionV, t: TokenV) -> SelectStmntOptionV {
    match t.rule {
        Rule::TableName => SelectStmntOptionV {
            table_name: Some(t.text),
            select_columns: st.select_columns,
        },
        Rule::Star => SelectStmntOptionV {
            table_name: st.table_name,
            select_columns: Some(t.text),
        },
        _ => st,
    }
}

/// The select builder state after consuming `toks`.
pub open spec fn build_select(toks: Seq<TokenV>) -> SelectStmntOptionV
    decreases toks.len(),
{
    if toks.len() == 0 {
        select_init()
    } else {
        select_step(build_select(toks.drop_last()), toks.last())
    }
}

/// The empty insert accumulator.
pub open spec fn insert_init() -> InsertStmntOptionV {
    InsertStmntOptionV { table_name: None, columns: Seq::empty(), values: Seq::empty() }
}

/// One accumulation step of the insert builder: a table name sets its slot, a
/// column name or a value appends to its sequence, anything else is ignored.
pub open spec fn insert_step(st: InsertStmntOptionV, t: TokenV) -> InsertStmntOptionV {
    match t.rule {
        Rule::TableName => InsertStmntOptionV {
            table_name: Some(t.text),
            columns: st.columns,
            values: st.values,
        },
        Rule::ColumnName => InsertStmntOptionV {
            table_name: st.table_name,
            columns: st.columns.push(Some(t.text)),
            values: st.values,
        },
        Rule::Value => InsertStmntOptionV {
            table_name: st.table_name,
            columns: st.columns,
            values: st.values.push(Some(t.text)),
        },
        _ => st,
    }
}

/// The insert builder state after consuming `toks`.
pub open spec fn build_insert(toks: Seq<TokenV>) -> InsertStmntOptionV
    decreases toks.len(),
{
    if toks.len() == 0 {
        insert_init()
    } else {
        insert_step(build_insert(toks.drop_last()), toks.last())
    }
}

/// Converts accumulated column definitions from position `i` on into required
/// ones, or names the first field found missing.
pub open spec fn defs_complete_from(defs: Seq<ColumnDefOptionV>, i: int) -> Result<
    Seq<ColumnDefV>,
    FieldName,
>
    decreases defs.len() - i,
        when 0 <= i <= defs.len()
{
    if i >= defs.len() {
        Ok(Seq::empty())
    } else {
        match defs[i].column_name {
            None => Err(FieldName::ColumnName),
            Some(nm) => match defs[i].column_type {
                None => Err(FieldName::ColumnType),
                Some(ty) => match defs_complete_from(defs, i + 1) {
                    Err(f) => Err(f),
                    Ok(rest) => Ok(
                        seq![ColumnDefV { column_name: nm, column_type: ty }] + rest,
                    ),
                },
            },
        }
    }
}

/// Converts a whole accumulated column-definition sequence.
pub open spec fn defs_complete(defs: Seq<ColumnDefOptionV>) -> Result<Seq<ColumnDefV>, FieldName> {
    defs_complete_from(defs, 0)
}

/// Whether every element of a sequence of optional values is present.
pub open spec fn all_present<T>(s: Seq<Option<T>>) -> bool {
    forall|i: int| 0 <= i < s.len() ==> s[i] is Some
}

/// The elements of a sequence of options, each unwrapped.
pub open spec fn unwrapped<T>(s: Seq<Option<T>>) -> Seq<T> {
    s.map_values(|o: Option<T>| o->Some_0)
}

/// Converts the create-table accumulator into the required record: the table
/// name must be set, every column definition must be complete, and at least
/// one column definition must have been accumulated.
pub open spec fn finalize_create(st: CreateTableOptionV) -> Result<CreateTableV, ErrorV> {
    match st.table_name {
        None => Err(ErrorV::MissingField(StmntKind::CreateTable, FieldName::TableName)),
        Some(t) => match defs_complete(st.column_defs) {
            Err(f) => Err(ErrorV::MissingField(StmntKind::CreateTable, f)),
            Ok(defs) => if defs.len() == 0 {
                Err(ErrorV::MissingField(StmntKind::CreateTable, FieldName::ColumnDefs))
            } else {
                Ok(CreateTableV { table_name: t, column_defs: defs })
            },
        },
    }
}

/// What building a create-table statement from `toks` returns.
pub open spec fn create_result(toks: Seq<TokenV>) -> Result<CreateTableV, ErrorV> {
    match build_create(toks) {
        Ok(st) => finalize_create(st),
        Err(e) => Err(e),
    }
}

/// Converts the select accumulator into the required record: both the table
/// name and the selected-columns marker must be set.
pub open spec fn finalize_select(st: SelectStmntOptionV) -> Result<SelectStmntV, ErrorV> {
    match st.table_name {
        None => Err(ErrorV::MissingField(StmntKind::Select, FieldName::TableName)),
        Some(t) => match st.select_columns {
            None => Err(ErrorV::MissingField(StmntKind::Select, FieldName::SelectColumns)),
            Some(sc) => Ok(SelectStmntV { table_name: t, select_columns: sc }),
        },
    }
}

/// What building a select statement from `toks` returns.
pub open spec fn select_result(toks: Seq<TokenV>) -> Result<SelectStmntV, ErrorV> {
    finalize_select(build_select(toks))
}

/// Converts the insert accumulator into the required record: the table name
/// must be set, every accumulated column and value must be present, and the
/// two sequences must pair up index by index.
pub open spec fn finalize_insert(st: InsertStmntOptionV) -> Result<InsertStmntV, ErrorV> {
    match st.table_name {
        None => Err(ErrorV::MissingField(StmntKind::Insert, FieldName::TableName)),
        Some(t) => if !all_present(st.columns) {
            Err(ErrorV::MissingField(StmntKind::Insert, FieldName::Columns))
        } else if !all_present(st.values) {
            Err(ErrorV::MissingField(StmntKind::Insert, FieldName::Values))
        } else if st.columns.len() != st.values.len() {
            Err(ErrorV::ArityMismatch(st.columns.len(), st.values.len()))
        } else {
            Ok(
                InsertStmntV {
                    table_name: t,
                    columns: unwrapped(st.columns),
                    values: unwrapped(st.values),
                },
            )
        },
    }
}

/// What building an insert statement from `toks` returns.
pub open spec fn insert_result(toks: Seq<TokenV>) -> Result<InsertStmntV, ErrorV> {
    finalize_insert(build_insert(toks))
}

/// Unwraps a vector of options by forward accumulation, or reports the
/// presence of an absent element.
pub fn unwrap_vec<T>(vec: Vec<Option<T>>) -> (r: Option<Vec<T>>)
    ensures
        match r {
            Some(out) => all_present(vec@) && out@ == unwrapped(vec@),
            None => !all_present(vec@),
        },
{
    let ghost orig = vec@;
    let mut v = vec;
    let mut out: Vec<T> = Vec::new();
    while v.len() > 0
        invariant
            orig == vec@,
            out@.len() + v@.len() == orig.len(),
            forall|k: int| 0 <= k < v@.len() ==> v@[k] == orig[out@.len() + k],
            forall|k: int| 0 <= k < out@.len() ==> orig[k] == Some(out@[k]),
        decreases v@.len(),
    {
        let ghost i = out@.len() as int;
        let ghost old_v = v@;
        proof {
            assert(old_v[0] == orig[i]);
        }
        let o = v.remove(0);
        proof {
            assert forall|k: int| 0 <= k < v@.len() implies v@[k] == orig[i + 1 + k] by {
                assert(v@[k] == old_v[k + 1]);
            }
        }
        match o {
            Some(x) => {
                let ghost old_out = out@;
                proof {
                    assert(o == old_v[0]);
                    assert(orig[i] == Some(x));
                }
                out.push(x);
                proof {
                    assert forall|k: int| 0 <= k < out@.len() implies orig[k] == Some(
                        out@[k],
                    ) by {
                        assert(out@[k] == old_out.push(x)[k]);
                        if k < old_out.len() {
                            assert(out@[k] == old_out[k]);
                        } else {
                            assert(out@[k] == x);
                        }
                    }
                }
            },
            None => {
                proof {
                    assert(orig[i] is None);
                    assert(!all_present(orig));
                }
                return None;
            },
        }
    }
    proof {
        assert forall|k: int| 0 <= k < orig.len() implies orig[k] is Some by {
            assert(orig[k] == Some(out@[k]));
        }
        assert(out@ =~= unwrapped(orig));
    }
    Some(out)
}

/// Converts accumulated column definitions into required ones by forward
/// accumulation, or reports the first field found missing.
pub fn unwrap_column_defs(column_defs: Vec<ColumnDefOption>) -> (r: Result<
    Vec<ColumnDef>,
    ParseError,
>)
    ensures
        match r {
            Ok(out) => defs_complete(defs_view(column_defs@)) == Ok::<Seq<ColumnDefV>, FieldName>(
                out@.map_values(|c: ColumnDef| c@),
            ),
            Err(e) => defs_complete(defs_view(column_defs@)) is Err && e@ == ErrorV::MissingField(
                StmntKind::CreateTable,
                defs_complete(defs_view(column_defs@))->Err_0,
            ),
        },
{
    let ghost dv = defs_view(column_defs@);
    let mut v = column_defs;
    let mut out: Vec<ColumnDef> = Vec::new();
    while v.len() > 0
        invariant
            dv == defs_view(column_defs@),
            out@.len() + v@.len() == dv.len(),
            forall|k: int| 0 <= k < v@.len() ==> v@[k]@ == dv[out@.len() + k],
            defs_complete(dv) == (match defs_complete_from(dv, out@.len() as int) {
                Ok(rest) => Ok::<Seq<ColumnDefV>, FieldName>(
                    out@.map_values(|c: ColumnDef| c@) + rest,
                ),
                Err(f) => Err(f),
            }),
        decreases v@.len(),
    {
        let ghost i = out@.len() as int;
        let ghost old_v = v@;
        proof {
            assert(old_v[0]@ == dv[i]);
        }
        let d = v.remove(0);
        proof {
            assert forall|k: int| 0 <= k < v@.len() implies v@[k]@ == dv[i + 1 + k] by {
                assert(v@[k] == old_v[k + 1]);
            }
        }
        match (d.column_name, d.column_type) {
            (Some(nm), Some(ty)) => {
                let ghost prev_out = out@;
                out.push(ColumnDef { column_name: nm, column_type: ty });
                proof {
                    assert(out@ =~= prev_out.push(ColumnDef { column_name: nm, column_type: ty }));
                    assert(out@.map_values(|c: ColumnDef| c@) =~= prev_out.map_values(
                        |c: ColumnDef| c@,
                    ).push(ColumnDefV { column_name: nm@, column_type: ty }));
                    match defs_complete_from(dv, i + 1) {
                        Ok(rest) => {
                            assert(prev_out.map_values(|c: ColumnDef| c@) + (seq![
                                ColumnDefV { column_name: nm@, column_type: ty },
                            ] + rest) =~= out@.map_values(|c: ColumnDef| c@) + rest);
                        },
                        Err(_) => {},
                    }
                }
            },
            (None, _) => {
                proof {
                    assert(defs_complete_from(dv, i) == Err::<Seq<ColumnDefV>, FieldName>(
                        FieldName::ColumnName,
                    ));
                }
                return Err(
                    ParseError::MissingField(StmntKind::CreateTable, FieldName::ColumnName),
                );
            },
            (Some(_), None) => {
                proof {
                    assert(defs_complete_from(dv, i) == Err::<Seq<ColumnDefV>, FieldName>(
                        FieldName::ColumnType,
                    ));
                }
                return Err(
                    ParseError::MissingField(StmntKind::CreateTable, FieldName::ColumnType),
                );
            },
        }
    }
    proof {
        assert(defs_complete_from(dv, out@.len() as int) == Ok::<Seq<ColumnDefV>, FieldName>(
            Seq::empty(),
        ));
        assert(out@.map_values(|c: ColumnDef| c@) + Seq::<ColumnDefV>::empty()
            =~= out@.map_values(|c: ColumnDef| c@));
    }
    Ok(out)
}

/// Builds a `CREATE TABLE` record from the flattened token sequence:
/// accumulates table name and column definitions by label, then finalizes.
pub fn parse_create_table_stmnt(tokens: &Vec<Token>) -> (r: Result<CreateTable, ParseError>)
    ensures
        match r {
            Ok(c) => create_result(tokens_view(tokens@)) == Ok::<CreateTableV, ErrorV>(c@),
            Err(e) => create_result(tokens_view(tokens@)) == Err::<CreateTableV, ErrorV>(e@),
        },
{
    let ghost tv = tokens_view(tokens@);
    let n = tokens.len();
    let mut ct_opt = CreateTableOption { table_name: None, column_defs: Vec::new() };
    proof {
        assert(ct_opt@.column_defs =~= create_init().column_defs);
        assert(tv.take(0) =~= Seq::<TokenV>::empty());
    }
    let mut i: usize = 0;
    while i < n
        invariant
            tv == tokens_view(tokens@),
            n == tokens@.len(),
            0 <= i <= n,
            build_create(tv.take(i as int)) == Ok::<CreateTableOptionV, ErrorV>(ct_opt@),
        decreases n - i,
    {
        let ghost prev = ct_opt@;
        proof {
            assert(tv[i as int] == tokens@[i as int]@);
            assert(tv.take(i + 1).drop_last() =~= tv.take(i as int));
            assert(tv.take(i + 1).last() == tv[i as int]);
        }
        let t = &tokens[i];
        match t.rule {
            Rule::TableName => {
                ct_opt.table_name = Some(t.text.clone());
                proof {
                    assert(create_step(prev, tv[i as int]) == Ok::<CreateTableOptionV, ErrorV>(
                        ct_opt@,
                    ));
                }
            },
            Rule::ColumnName => {
                let ghost prev_defs = ct_opt.column_defs@;
                ct_opt.column_defs.push(
                    ColumnDefOption { column_name: Some(t.text.clone()), column_type: None },
                );
                proof {
                    assert(defs_view(ct_opt.column_defs@) =~= defs_view(prev_defs).push(
                        ColumnDefOptionV { column_name: Some(t.text@), column_type: None },
                    ));
                    assert(create_step(prev, tv[i as int]) == Ok::<CreateTableOptionV, ErrorV>(
                        ct_opt@,
                    ));
                }
            },
            Rule::ColumnType => {
                let ty = match SqlType::from_str(t.text.as_str()) {
                    Ok(ty) => ty,
                    Err(e) => {
                        proof {
                            assert(create_step(prev, tv[i as int]) == Err::<
                                CreateTableOptionV,
                                ErrorV,
                            >(e@));
                            assert(build_create(tv.take(i + 1)) == Err::<
                                CreateTableOptionV,
                                ErrorV,
                            >(e@));
                            lemma_build_create_err(tv, i + 1);
                        }
                        return Err(e);
                    },
                };
                let len = ct_opt.column_defs.len();
                let open_slot = len > 0 && ct_opt.column_defs[len - 1].column_type.is_none();
                if !open_slot {
                    let e = ParseError::MissingField(StmntKind::CreateTable, FieldName::ColumnName);
                    proof {
                        assert(prev.column_defs.len() == len);
                        if len > 0 {
                            assert(prev.column_defs.last() == ct_opt.column_defs@[len - 1]@);
                        }
                        assert(create_step(prev, tv[i as int]) == Err::<CreateTableOptionV, ErrorV>(
                            e@,
                        ));
                        assert(build_create(tv.take(i + 1)) == Err::<CreateTableOptionV, ErrorV>(
                            e@,
                        ));
                        lemma_build_create_err(tv, i + 1);
                    }
                    return Err(e);
                }
                let ghost prev_defs = ct_opt.column_defs@;
                let mut d = match ct_opt.column_defs.pop() {
                    Some(d) => d,
                    None => {
                        // the open-slot test above saw a last element, so
                        // this arm cannot be reached
                        proof {
                            assert(false);
                        }
                        return Err(ParseError::Syntax);
                    },
                };
                d.column_type = Some(ty);
                ct_opt.column_defs.push(d);
                proof {
                    assert(prev.column_defs.last() == prev_defs[len - 1]@);
                    assert(defs_view(ct_opt.column_defs@) =~= defs_view(prev_defs).update(
                        len - 1,
                        ColumnDefOptionV {
                            column_name: prev.column_defs.last().column_name,
                            column_type: Some(ty),
                        },
                    ));
                    assert(create_step(prev, tv[i as int]) == Ok::<CreateTableOptionV, ErrorV>(
                        ct_opt@,
                    ));
                }
            },
            _ => {
                proof {
                    assert(create_step(prev, tv[i as int]) == Ok::<CreateTableOptionV, ErrorV>(
                        ct_opt@,
                    ));
                }
            },
        }
        i += 1;
    }
    proof {
        assert(tv.take(n as int) =~= tv);
    }
    let table_name = match ct_opt.table_name {
        Some(t) => t,
        None => {
            return Err(ParseError::MissingField(StmntKind::CreateTable, FieldName::TableName));
        },
    };
    let column_defs = match unwrap_column_defs(ct_opt.column_defs) {
        Ok(d) => d,
        Err(e) => {
            return Err(e);
        },
    };
    if column_defs.len() == 0 {
        return Err(ParseError::MissingField(StmntKind::CreateTable, FieldName::ColumnDefs));
    }
    Ok(CreateTable { table_name, column_defs })
}

/// Builds a select record from the flattened token sequence: accumulates the
/// table name and the wildcard marker by label, then finalizes.
pub fn parse_select_stmnt(tokens: &Vec<Token>) -> (r: Result<SelectStmnt, ParseError>)
    ensures
        match r {
            Ok(s) => select_result(tokens_view(tokens@)) == Ok::<SelectStmntV, ErrorV>(s@),
            Err(e) => select_result(tokens_view(tokens@)) == Err::<SelectStmntV, ErrorV>(e@),
        },
{
    let ghost tv = tokens_view(tokens@);
    let n = tokens.len();
    let mut st_opt = SelectStmntOption { table_name: None, select_columns: None };
    proof {
        assert(tv.take(0) =~= Seq::<TokenV>::empty());
    }
    let mut i: usize = 0;
    while i < n
        invariant
            tv == tokens_view(tokens@),
            n == tokens@.len(),
            0 <= i <= n,
            build_select(tv.take(i as int)) == st_opt@,
        decreases n - i,
    {
        let ghost prev = st_opt@;
        proof {
            assert(tv[i as int] == tokens@[i as int]@);
            assert(tv.take(i + 1).drop_last() =~= tv.take(i as int));
            assert(tv.take(i + 1).last() == tv[i as int]);
        }
        let t = &tokens[i];
        match t.rule {
            Rule::TableName => {
                st_opt.table_name = Some(t.text.clone());
            },
            Rule::Star => {
                st_opt.select_columns = Some(t.text.clone());
            },
            _ => {},
        }
        proof {
            assert(select_step(prev, tv[i as int]) == st_opt@);
        }
        i += 1;
    }
    proof {
        assert(tv.take(n as int) =~= tv);
    }
    let table_name = match st_opt.table_name {
        Some(t) => t,
        None => {
            return Err(ParseError::MissingField(StmntKind::Select, FieldName::TableName));
        },
    };
    let select_columns = match st_opt.select_columns {
        Some(s) => s,
        None => {
            return Err(ParseError::MissingField(StmntKind::Select, FieldName::SelectColumns));
        },
    };
    Ok(SelectStmnt { table_name, select_columns })
}

/// Builds an insert record from the flattened token sequence: accumulates the
/// table name, the column list and the value list by label, then finalizes,
/// checking that columns and values pair up.
pub fn parse_insert_stmnt(tokens: &Vec<Token>) -> (r: Result<InsertStmnt, ParseError>)
    ensures
        match r {
            Ok(s) => insert_result(tokens_view(tokens@)) == Ok::<InsertStmntV, ErrorV>(s@),
            Err(e) => insert_result(tokens_view(tokens@)) == Err::<InsertStmntV, ErrorV>(e@),
        },
{
    let ghost tv = tokens_view(tokens@);
    let n = tokens.len();
    let mut is_opt = InsertStmntOption { table_name: None, columns: Vec::new(), values: Vec::new() };
    proof {
        assert(is_opt@.columns =~= insert_init().columns);
        assert(is_opt@.values =~= insert_init().values);
        assert(tv.take(0) =~= Seq::<TokenV>::empty());
    }
    let mut i: usize = 0;
    while i < n
        invariant
            tv == tokens_view(tokens@),
            n == tokens@.len(),
            0 <= i <= n,
            build_insert(tv.take(i as int)) == is_opt@,
        decreases n - i,
    {
        let ghost prev = is_opt@;
        proof {
            assert(tv[i as int] == tokens@[i as int]@);
            assert(tv.take(i + 1).drop_last() =~= tv.take(i as int));
            assert(tv.take(i + 1).last() == tv[i as int]);
        }
        let t = &tokens[i];
        match t.rule {
            Rule::TableName => {
                is_opt.table_name = Some(t.text.clone());
                proof {
                    assert(insert_step(prev, tv[i as int]) == is_opt@);
                }
            },
            Rule::ColumnName => {
                let ghost prev_cols = is_opt.columns@;
                is_opt.columns.push(Some(t.text.clone()));
                proof {
                    assert(opts_view(is_opt.columns@) =~= opts_view(prev_cols).push(
                        Some(t.text@),
                    ));
                    assert(insert_step(prev, tv[i as int]) == is_opt@);
                }
            },
            Rule::Value => {
                let ghost prev_vals = is_opt.values@;
                is_opt.values.push(Some(t.text.clone()));
                proof {
                    assert(opts_view(is_opt.values@) =~= opts_view(prev_vals).push(
                        Some(t.text@),
                    ));
                    assert(insert_step(prev, tv[i as int]) == is_opt@);
                }
            },
            _ => {
                proof {
                    assert(insert_step(prev, tv[i as int]) == is_opt@);
                }
            },
        }
        i += 1;
    }
    proof {
        assert(tv.take(n as int) =~= tv);
    }
    let ghost st = is_opt@;
    let table_name = match is_opt.table_name {
        Some(t) => t,
        None => {
            return Err(ParseError::MissingField(StmntKind::Insert, FieldName::TableName));
        },
    };
    let ghost cols_opt = is_opt.columns@;
    let columns = match unwrap_vec(is_opt.columns) {
        Some(c) => c,
        None => {
            proof {
                let k = choose|k: int| 0 <= k < cols_opt.len() && cols_opt[k] is None;
                assert(st.columns[k] is None);
                assert(!all_present(st.columns));
            }
            return Err(ParseError::MissingField(StmntKind::Insert, FieldName::Columns));
        },
    };
    let ghost vals_opt = is_opt.values@;
    let values = match unwrap_vec(is_opt.values) {
        Some(v) => v,
        None => {
            proof {
                let k = choose|k: int| 0 <= k < vals_opt.len() && vals_opt[k] is None;
                assert(st.values[k] is None);
                assert(!all_present(st.values));
                assert(all_present(st.columns)) by {
                    assert(forall|j: int| 0 <= j < cols_opt.len() ==> cols_opt[j] is Some);
                    assert(forall|j: int|
                        0 <= j < st.columns.len() ==> st.columns[j] == opt_view(cols_opt[j]));
                }
            }
            return Err(ParseError::MissingField(StmntKind::Insert, FieldName::Values));
        },
    };
    if columns.len() != values.len() {
        proof {
            assert(all_present(st.columns)) by {
                assert(forall|j: int| 0 <= j < cols_opt.len() ==> cols_opt[j] is Some);
                assert(forall|j: int|
                    0 <= j < st.columns.len() ==> st.columns[j] == opt_view(cols_opt[j]));
            }
            assert(all_present(st.values)) by {
                assert(forall|j: int| 0 <= j < vals_opt.len() ==> vals_opt[j] is Some);
                assert(forall|j: int|
                    0 <= j < st.values.len() ==> st.values[j] == opt_view(vals_opt[j]));
            }
        }
        return Err(ParseError::ArityMismatch(columns.len(), values.len()));
    }
    let result = InsertStmnt { table_name, columns, values };
    proof {
        assert(all_present(st.columns)) by {
            assert(forall|j: int| 0 <= j < cols_opt.len() ==> cols_opt[j] is Some);
            assert(forall|j: int|
                0 <= j < st.columns.len() ==> st.columns[j] == opt_view(cols_opt[j]));
        }
        assert(all_present(st.values)) by {
            assert(forall|j: int| 0 <= j < vals_opt.len() ==> vals_opt[j] is Some);
            assert(forall|j: int|
                0 <= j < st.values.len() ==> st.values[j] == opt_view(vals_opt[j]));
        }
        assert(result@.columns =~= unwrapped(st.columns));
        assert(result@.values =~= unwrapped(st.values));
    }
    Ok(result)
}

} // verus!

