use vstd::prelude::*;
use crate::error::{ErrorCode, ErrorKind};
use crate::resolver::{resolve_relations, resolved_schema, schemas_view};
use crate::rpn::RelationRPNItem;
use crate::schema::{ColumnView, DataField, QualifiedSchema};

verus! {

/// What the analysis of one SELECT statement has established so far. `E` is the
/// type of an analyzed expression.
pub struct AnalyzeQueryState<E> {
    pub filter_predicate: Option<E>,
    pub before_group_by_expressions: Vec<E>,
    pub group_by_expressions: Vec<E>,
    pub aggregate_expressions: Vec<E>,
    pub before_having_expressions: Vec<E>,
    pub having_predicate: Option<E>,
    pub order_by_expressions: Vec<E>,
    pub projection_expressions: Vec<E>,
    pub joined_schema: QualifiedSchema,
    pub before_aggr_schema: QualifiedSchema,
    pub after_aggr_schema: QualifiedSchema,
    pub finalize_schema: Vec<DataField>,
    /// Projection alias names and the expressions they stand for, one entry per
    /// name. A list rather than a hash map: vstd gives `HashMap` operations a
    /// meaning only for keys with a key model, which `String` lacks.
    pub projection_aliases: Vec<(String, E)>,
}

impl<E> AnalyzeQueryState<E> {
    /// Each projection alias name occurs once.
    pub open spec fn wf(&self) -> bool {
        forall|i: int, j: int|
            0 <= i < j < self.projection_aliases@.len() ==> #[trigger] self.projection_aliases@[i].0@
                != #[trigger] self.projection_aliases@[j].0@
    }

    /// A state whose joined schema is `joined` and whose every other field is empty.
    pub open spec fn is_initial(&self, joined: Seq<ColumnView>) -> bool {
        &&& self.joined_schema@ == joined
        &&& self.filter_predicate is None
        &&& self.having_predicate is None
        &&& self.before_group_by_expressions@.len() == 0
        &&& self.group_by_expressions@.len() == 0
        &&& self.aggregate_expressions@.len() == 0
        &&& self.before_having_expressions@.len() == 0
        &&& self.order_by_expressions@.len() == 0
        &&& self.projection_expressions@.len() == 0
        &&& self.before_aggr_schema@.len() == 0
        &&& self.after_aggr_schema@.len() == 0
        &&& self.finalize_schema@.len() == 0
        &&& self.projection_aliases@.len() == 0
    }

    /// Starts the analysis of a statement: folds its relation sequence, given the
    /// schema of each operand in order, into the joined schema.
    pub fn create<Q, P>(rpn: &Vec<RelationRPNItem<Q, P>>, operands: Vec<QualifiedSchema>) -> (r: Result<
        AnalyzeQueryState<E>,
        ErrorCode,
    >)
        ensures
            match resolved_schema(rpn@, schemas_view(operands@)) {
                Some(s) => r matches Ok(st) && st.is_initial(s) && st.wf(),
                None => r matches Err(e) && e.kind == ErrorKind::LogicalError,
            },
    {
        match resolve_relations(rpn, operands) {
            Err(e) => Err(e),
            Ok(joined_schema) => Ok(
                AnalyzeQueryState {
                    filter_predicate: None,
                    before_group_by_expressions: Vec::new(),
                    group_by_expressions: Vec::new(),
                    aggregate_expressions: Vec::new(),
                    before_having_expressions: Vec::new(),
                    having_predicate: None,
                    order_by_expressions: Vec::new(),
                    projection_expressions: Vec::new(),
                    joined_schema,
                    before_aggr_schema: QualifiedSchema::none(),
                    after_aggr_schema: QualifiedSchema::none(),
                    finalize_schema: Vec::new(),
                    projection_aliases: Vec::new(),
                },
            ),
        }
    }
}

} // verus!
