use vstd::prelude::*;
use crate::error::{ErrorCode, ErrorKind};

verus! {

/// The characters of each string in a list.
pub open spec fn names_view(v: Seq<String>) -> Seq<Seq<char>> {
    v.map_values(|s: String| s@)
}

/// A column as stored: name, semantic type and nullability.
#[derive(Debug)]
pub struct DataField {
    pub name: String,
    pub data_type: String,
    pub nullable: bool,
}

pub struct FieldView {
    pub name: Seq<char>,
    pub data_type: Seq<char>,
    pub nullable: bool,
}

impl View for DataField {
    type V = FieldView;

    open spec fn view(&self) -> FieldView {
        FieldView { name: self.name@, data_type: self.data_type@, nullable: self.nullable }
    }
}

impl DataField {
    pub fn new(name: &str, data_type: &str, nullable: bool) -> (r: DataField)
        ensures
            r.name@ == name@,
            r.data_type@ == data_type@,
            r.nullable == nullable,
    {
        DataField { name: name.to_owned(), data_type: data_type.to_owned(), nullable }
    }

    pub fn duplicate(&self) -> (r: DataField)
        ensures
            r@ == self@,
    {
        DataField { name: self.name.clone(), data_type: self.data_type.clone(), nullable: self.nullable }
    }
}

/// The view of a list of stored columns.
pub open spec fn fields_view(v: Seq<DataField>) -> Seq<FieldView> {
    v.map_values(|f: DataField| f@)
}

/// A column together with the name path that qualifies it (`[db, table]` or `[alias]`).
#[derive(Debug)]
pub struct QualifiedColumn {
    pub prefix: Vec<String>,
    pub field: DataField,
}

pub struct ColumnView {
    pub prefix: Seq<Seq<char>>,
    pub field: FieldView,
}

impl View for QualifiedColumn {
    type V = ColumnView;

    open spec fn view(&self) -> ColumnView {
        ColumnView { prefix: names_view(self.prefix@), field: self.field@ }
    }
}

/// An ordered list of qualified columns.
#[derive(Debug)]
pub struct QualifiedSchema {
    pub columns: Vec<QualifiedColumn>,
}

impl View for QualifiedSchema {
    type V = Seq<ColumnView>;

    open spec fn view(&self) -> Seq<ColumnView> {
        columns_view(self.columns@)
    }
}

/// The view of a list of qualified columns.
pub open spec fn columns_view(v: Seq<QualifiedColumn>) -> Seq<ColumnView> {
    v.map_values(|c: QualifiedColumn| c@)
}

/// Every stored column, in order, qualified by `prefix`.
pub open spec fn qualify(fields: Seq<FieldView>, prefix: Seq<Seq<char>>) -> Seq<ColumnView> {
    fields.map_values(|f: FieldView| ColumnView { prefix, field: f })
}

/// Whether a reference `q1. ... .qk.name` denotes the column: the names agree and
/// the qualifiers are the trailing part of the column's prefix.
pub open spec fn column_matches(c: ColumnView, path: Seq<Seq<char>>) -> bool {
    &&& path.len() >= 1
    &&& c.field.name == path.last()
    &&& path.len() - 1 <= c.prefix.len()
    &&& c.prefix.subrange(c.prefix.len() - (path.len() - 1), c.prefix.len() as int) == path.drop_last()
}

/// How many columns of `cols` a reference denotes.
pub open spec fn match_count(cols: Seq<ColumnView>, path: Seq<Seq<char>>) -> nat
    decreases cols.len(),
{
    if cols.len() == 0 {
        0
    } else {
        match_count(cols.drop_last(), path) + if column_matches(cols.last(), path) {
            1nat
        } else {
            0nat
        }
    }
}

fn clone_names(v: &Vec<String>) -> (r: Vec<String>)
    ensures
        r@ == v@,
{
    let mut r: Vec<String> = Vec::new();
    let mut i: usize = 0;
    while i < v.len()
        invariant
            i <= v.len(),
            r@ == v@.subrange(0, i as int),
        decreases v.len() - i,
    {
        r.push(v[i].clone());
        i += 1;
        assert(r@ =~= v@.subrange(0, i as int));
    }
    assert(r@ =~= v@);
    r
}

fn reference_matches(col: &QualifiedColumn, path: &Vec<String>) -> (r: bool)
    ensures
        r == column_matches(col@, names_view(path@)),
{
    let n = path.len();
    if n == 0 {
        return false;
    }
    let q = n - 1;
    let plen = col.prefix.len();
    if !(col.field.name == path[q]) || q > plen {
        return false;
    }
    let ghost pv = names_view(col.prefix@);
    let ghost qv = names_view(path@).drop_last();
    let start = plen - q;
    let mut j: usize = 0;
    while j < q
        invariant
            j <= q,
            q == n - 1,
            n == path.len(),
            plen == col.prefix.len(),
            start == plen - q,
            q <= plen,
            pv == names_view(col.prefix@),
            qv == names_view(path@).drop_last(),
            forall|t: int| 0 <= t < j ==> pv[start + t] == qv[t],
        decreases q - j,
    {
        if !(col.prefix[start + j] == path[j]) {
            assert(pv.subrange(start as int, plen as int)[j as int] != qv[j as int]);
            return false;
        }
        j += 1;
    }
    assert(pv.subrange(start as int, plen as int) =~= qv);
    true
}

impl QualifiedSchema {
    /// The empty schema: no columns.
    pub fn none() -> (r: QualifiedSchema)
        ensures
            r@.len() == 0,
    {
        QualifiedSchema { columns: Vec::new() }
    }

    /// Qualifies every stored column by `prefix`, keeping their order.
    pub fn from_schema(fields: Vec<DataField>, prefix: Vec<String>) -> (r: QualifiedSchema)
        ensures
            r@ == qualify(fields_view(fields@), names_view(prefix@)),
    {
        let ghost orig = fields@;
        let ghost pv = names_view(prefix@);
        let mut fields = fields;
        let mut columns: Vec<QualifiedColumn> = Vec::new();
        while fields.len() > 0
            invariant
                columns@.len() + fields@.len() == orig.len(),
                fields@ == orig.subrange(columns@.len() as int, orig.len() as int),
                columns_view(columns@) == qualify(
                    fields_view(orig.subrange(0, columns@.len() as int)),
                    pv,
                ),
                pv == names_view(prefix@),
            decreases fields.len(),
        {
            let ghost k = columns@.len() as int;
            let field = fields.remove(0);
            assert(field == orig[k]);
            let p = clone_names(&prefix);
            let col = QualifiedColumn { prefix: p, field };
            assert(col@ == (ColumnView { prefix: pv, field: orig[k]@ }));
            let ghost prev = columns@;
            columns.push(col);
            assert forall|t: int| 0 <= t < k + 1 implies #[trigger] columns_view(columns@)[t] == qualify(fields_view(orig.subrange(0, k + 1)), pv)[t] by {
                if t < k {
                    assert(columns_view(prev)[t] == qualify(
                        fields_view(orig.subrange(0, k)),
                        pv,
                    )[t]);
                    assert(columns@[t] == prev[t]);
                }
            }
            assert(fields@ =~= orig.subrange(k + 1, orig.len() as int));
            assert(columns_view(columns@) =~= qualify(
                fields_view(orig.subrange(0, k + 1)),
                pv,
            ));
        }
        assert(orig.subrange(0, orig.len() as int) =~= orig);
        QualifiedSchema { columns }
    }

    /// The columns of `left` followed by those of `right`: nothing is reordered or dropped.
    pub fn join(left: QualifiedSchema, right: QualifiedSchema) -> (r: QualifiedSchema)
        ensures
            r@ == left@ + right@,
    {
        let mut columns = left.columns;
        let mut rest = right.columns;
        columns.append(&mut rest);
        let r = QualifiedSchema { columns };
        assert(r@ =~= left@ + right@);
        r
    }

    pub fn len(&self) -> (r: usize)
        ensures
            r == self@.len(),
    {
        self.columns.len()
    }

    /// Finds the one column that a reference `q1. ... .qk.name` denotes.
    pub fn find_column(&self, path: &Vec<String>) -> (r: Result<usize, ErrorCode>)
        ensures
            match r {
                Ok(i) => i < self@.len() && column_matches(self@[i as int], names_view(path@))
                    && match_count(self@, names_view(path@)) == 1,
                Err(e) => (e.kind == ErrorKind::UnknownColumn && match_count(self@, names_view(path@)) == 0)
                    || (e.kind == ErrorKind::AmbiguousColumn && match_count(self@, names_view(path@)) >= 2),
            },
    {
        let ghost pv = names_view(path@);
        let mut count: usize = 0;
        let mut found: usize = 0;
        let mut i: usize = 0;
        while i < self.columns.len()
            invariant
                i <= self.columns.len(),
                count == match_count(self@.subrange(0, i as int), pv),
                count <= i,
                count >= 1 ==> found < i && column_matches(self@[found as int], pv),
                pv == names_view(path@),
            decreases self.columns.len() - i,
        {
            let m = reference_matches(&self.columns[i], path);
            assert(self@.subrange(0, i + 1).drop_last() =~= self@.subrange(0, i as int));
            if m {
                if count == 0 {
                    found = i;
                }
                count += 1;
            }
            i += 1;
        }
        assert(self@.subrange(0, i as int) =~= self@);
        if count == 0 {
            Err(ErrorCode::new(ErrorKind::UnknownColumn, "Unknown column"))
        } else if count == 1 {
            Ok(found)
        } else {
            Err(ErrorCode::new(ErrorKind::AmbiguousColumn, "Ambiguous column reference"))
        }
    }
}

} // verus!
