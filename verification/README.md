# template_eval

Evaluation of the conditions of templates, `<% a.b == 1 && !c %>`, against
a JSON context, verified with Verus.

- `src/text.rs`: characters of strings, their lexicographic order, splitting
  on `.`, decimal text of integers.
- `src/decimal.rs`: non-integer numbers as binary64 bit patterns; zero tests and
  comparisons stated over the bits.
- `src/operand.rs`, `src/expr.rs`: operands, operators, expressions in
  evaluation order, and `Convert` (truth and text of an operand).
- `src/compute.rs`: the operators on resolved operands.
- `src/json.rs`, `src/context.rs`: the JSON context, lookups of dotted names,
  resolution of names to operands.
- `src/eval.rs`: the stack evaluator (`Eval::evaluate`, `ComputeExpr::run`) and
  its specification.
- `src/lex.rs`, `src/parse.rs`, `src/template.rs`: tokens, precedence parsing,
  `<% ... %>` blocks, `get_expr` and `Eval::new`.
- `src/messages.rs`: the texts of evaluation errors, built from the `Debug`
  forms of operands and operators.
- `src/laws.rs`, `src/shape.rs`: laws of the operators, of lookups, of
  evaluation and of parsed conditions.
- `app/lib.rs`: reading contexts with `serde_json`, floats into `Decimal`, and
  the panics of the evaluator.
