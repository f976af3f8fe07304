use ods_builder::accessor::{generate_accessor, read_single, read_slice, variadic_bounds, Access};
use ods_builder::builder::generate_operation_builder;
use ods_builder::generation::generate_operation;
use ods_builder::operation::{construct_default, ConversionError, GenericOperation, NamedOperation, OperationBuilder};
use ods_builder::schema::{Cardinality, Category, Field, OperationSchema};
use ods_builder::type_state::{TypeArgument, TypeState};

fn field(name: &str, category: Category, cardinality: Cardinality) -> Field {
    Field::new(name.to_string(), "Value".to_string(), category, cardinality)
}

/// Required fields a, b, c (two operands and an attribute) and an optional
/// attribute d.
fn abcd_schema() -> OperationSchema {
    OperationSchema {
        name: "AbcOp".to_string(),
        full_name: "test.abc".to_string(),
        summary: "An operation".to_string(),
        description: "With three required fields.".to_string(),
        results: vec![],
        operands: vec![
            field("a", Category::Operand, Cardinality::Single),
            field("b", Category::Operand, Cardinality::Single),
        ],
        regions: vec![],
        successors: vec![],
        attributes: vec![
            field("c", Category::Attribute, Cardinality::Single),
            field("d", Category::Attribute, Cardinality::Optional),
        ],
        can_infer_type: false,
    }
}

fn setter_index(schema: &OperationSchema, name: &str) -> usize {
    let fields = schema.builder_fields();
    fields.iter().position(|f| f.name == name).unwrap()
}

#[test]
fn required_fields_in_declaration_order() {
    let schema = abcd_schema();
    let names: Vec<String> = schema.required_fields().into_iter().map(|f| f.name).collect();
    assert_eq!(names, vec!["a", "b", "c"]);
    let builder = generate_operation_builder(&schema);
    assert_eq!(builder.parameters, vec![0, 1, 2]);
    assert_eq!(builder.setters.len(), 4);
    assert_eq!(builder.setters[3].coordinate, None);
}

#[test]
fn results_are_left_out_when_inferred() {
    let mut schema = abcd_schema();
    schema.results = vec![field("r", Category::Result, Cardinality::Single)];
    assert_eq!(schema.required_fields().len(), 4);
    schema.can_infer_type = true;
    assert_eq!(schema.required_fields().len(), 3);
    let builder = generate_operation_builder(&schema);
    assert!(builder.build_fn.infer_result_types);
}

#[test]
fn type_state_argument_lists() {
    let ts = TypeState::new(3);
    assert_eq!(ts.parameters(), vec![0, 1, 2]);
    assert_eq!(ts.parameters_without(1), vec![0, 2]);
    assert_eq!(
        ts.arguments_set(1, false),
        vec![TypeArgument::Parameter(0), TypeArgument::UnsetMarker, TypeArgument::Parameter(2)]
    );
    assert_eq!(
        ts.arguments_set(2, true),
        vec![TypeArgument::Parameter(0), TypeArgument::Parameter(1), TypeArgument::SetMarker]
    );
    assert_eq!(ts.arguments_all_set(true), vec![TypeArgument::SetMarker; 3]);
    assert_eq!(ts.arguments_generic().len(), 3);
}

#[test]
fn a_full_permutation_reaches_build() {
    let schema = abcd_schema();
    let definition = generate_operation_builder(&schema);
    let (a, b, c, d) = (
        setter_index(&schema, "a"),
        setter_index(&schema, "b"),
        setter_index(&schema, "c"),
        setter_index(&schema, "d"),
    );
    let mut builder = OperationBuilder::new(&definition);
    assert!(!builder.has_build(&definition));
    for (m, v) in [(c, 3u64), (d, 40), (a, 1), (d, 41), (b, 2)] {
        assert!(builder.has_setter(&definition, m));
        builder.set(&definition, m, &vec![v]);
    }
    assert!(builder.has_build(&definition));
    let operation = builder.build(&definition);
    assert_eq!(operation.name, "test.abc");
    assert_eq!(operation.operands, vec![1, 2]);
    let attributes: Vec<(String, u64)> = operation.attributes.iter().map(|x| (x.name.clone(), x.value)).collect();
    assert_eq!(
        attributes,
        vec![("c".to_string(), 3), ("d".to_string(), 40), ("d".to_string(), 41)]
    );
}

#[test]
fn build_exists_on_exactly_one_instantiation() {
    let schema = abcd_schema();
    let definition = generate_operation_builder(&schema);
    let mut with_build = 0;
    for bits in 0..8u32 {
        let state: Vec<bool> = (0..3).map(|i| bits & (1 << i) != 0).collect();
        let all = state.iter().all(|x| *x);
        let builder = OperationBuilder { state, operation: GenericOperation::new("test.abc".to_string()) };
        if builder.has_build(&definition) {
            with_build += 1;
            assert!(all);
        }
    }
    assert_eq!(with_build, 1);
}

#[test]
fn setting_only_a_and_b_cannot_build() {
    let schema = abcd_schema();
    let definition = generate_operation_builder(&schema);
    let mut builder = OperationBuilder::new(&definition);
    builder.set(&definition, setter_index(&schema, "a"), &vec![1]);
    builder.set(&definition, setter_index(&schema, "b"), &vec![2]);
    assert_eq!(builder.state, vec![true, true, false]);
    assert!(!builder.has_build(&definition));
}

#[test]
fn a_setter_disappears_after_its_call() {
    let schema = abcd_schema();
    let definition = generate_operation_builder(&schema);
    let mut builder = OperationBuilder::new(&definition);
    let available = |b: &OperationBuilder| -> Vec<usize> {
        (0..definition.setters.len()).filter(|m| b.has_setter(&definition, *m)).collect()
    };
    assert_eq!(available(&builder), vec![0, 1, 2, 3]);
    builder.set(&definition, 1, &vec![7]);
    assert_eq!(available(&builder), vec![0, 2, 3]);
    builder.set(&definition, 2, &vec![8]);
    assert_eq!(available(&builder), vec![0, 3]);
    builder.set(&definition, 0, &vec![9]);
    assert_eq!(available(&builder), vec![3]);
}

#[test]
fn optional_setter_keeps_the_instantiation() {
    let schema = abcd_schema();
    let definition = generate_operation_builder(&schema);
    let d = setter_index(&schema, "d");
    let mut states = Vec::new();
    for times in [0usize, 1, 3] {
        let mut builder = OperationBuilder::new(&definition);
        builder.set(&definition, 0, &vec![1]);
        for t in 0..times {
            builder.set(&definition, d, &vec![t as u64]);
        }
        builder.set(&definition, 2, &vec![3]);
        assert_eq!(builder.operation.attributes.len(), times + 1);
        states.push(builder.state);
    }
    assert_eq!(states[0], vec![true, false, true]);
    assert_eq!(states[0], states[1]);
    assert_eq!(states[1], states[2]);
}

#[test]
fn variadic_slice_of_seven_items() {
    let category = vec![
        field("x0", Category::Operand, Cardinality::Single),
        field("x1", Category::Operand, Cardinality::Single),
        field("rest", Category::Operand, Cardinality::Variadic),
        field("last", Category::Operand, Cardinality::Single),
    ];
    assert_eq!(generate_accessor(&category, 1), Access::Front(1));
    assert_eq!(generate_accessor(&category, 2), Access::Slice { before: 2, after: 1 });
    assert_eq!(generate_accessor(&category, 3), Access::Back(1));
    assert_eq!(variadic_bounds(2, 1, 7), Some((2, 6)));
    let mut items: Vec<u64> = (10..17).collect();
    assert_eq!(read_slice(&items, 2, 1), Some(vec![12, 13, 14, 15]));
    assert_eq!(read_single(&items, Access::Front(1)), Some(11));
    assert_eq!(read_single(&items, Access::Back(1)), Some(16));
    items.insert(6, 99);
    assert_eq!(variadic_bounds(2, 1, 8), Some((2, 7)));
    assert_eq!(read_slice(&items, 2, 1), Some(vec![12, 13, 14, 15, 99]));
    assert_eq!(read_single(&items, Access::Front(1)), Some(11));
    assert_eq!(read_single(&items, Access::Back(1)), Some(16));
}

#[test]
fn accessors_on_short_lists() {
    let items: Vec<u64> = vec![5, 6];
    assert_eq!(variadic_bounds(2, 1, 2), None);
    assert_eq!(read_slice(&items, 2, 1), None);
    assert_eq!(read_slice(&items, 2, 0), Some(vec![]));
    assert_eq!(read_single(&items, Access::Front(2)), None);
    assert_eq!(read_single(&items, Access::Back(3)), None);
    assert_eq!(read_single(&items, Access::Back(0)), None);
}

#[test]
fn round_trip_through_the_generic_operation() {
    let mut operation = GenericOperation::new("test.abc".to_string());
    operation.append(&field("a", Category::Operand, Cardinality::Single), &vec![4]);
    let named = NamedOperation::try_from_generic("test.abc".to_string(), operation).unwrap();
    assert_eq!(named.name(), "test.abc");
    let generic = named.into_generic();
    assert_eq!(generic.operands, vec![4]);
    let again = NamedOperation::try_from_generic("test.abc".to_string(), generic).unwrap();
    assert_eq!(again.as_operation().operands, vec![4]);
    assert_eq!(again.as_operation().name, "test.abc");
}

#[test]
fn narrowing_under_another_name_fails() {
    let operation = GenericOperation::new("test.other".to_string());
    match NamedOperation::try_from_generic("test.abc".to_string(), operation) {
        Err(ConversionError::NameMismatch { expected, actual }) => {
            assert_eq!(expected, "test.abc");
            assert_eq!(actual, "test.other");
        }
        Ok(_) => panic!("the names differ"),
    }
}

#[test]
fn default_constructor_matches_manual_builder() {
    let schema = abcd_schema();
    let definition = generate_operation_builder(&schema);
    let built = construct_default(&schema, &definition, &vec![1, 2, 3]);
    let mut builder = OperationBuilder::new(&definition);
    builder.set(&definition, 0, &vec![1]);
    builder.set(&definition, 1, &vec![2]);
    builder.set(&definition, 2, &vec![3]);
    let manual = builder.build(&definition);
    assert_eq!(built.name(), "test.abc");
    assert_eq!(built.as_operation().operands, manual.operands);
    assert_eq!(built.as_operation().name, manual.name);
    let names = |op: &GenericOperation| -> Vec<(String, u64)> {
        op.attributes.iter().map(|x| (x.name.clone(), x.value)).collect()
    };
    assert_eq!(names(built.as_operation()), names(&manual));
    assert_eq!(names(&manual), vec![("c".to_string(), 3)]);
}

#[test]
fn whole_operation_definition() {
    let schema = abcd_schema();
    let definition = generate_operation(&schema);
    assert_eq!(definition.full_name, "test.abc");
    assert_eq!(definition.operand_accessors.len(), 2);
    assert_eq!(definition.operand_accessors[1].access, Access::Front(1));
    assert_eq!(definition.attribute_accessors.len(), 2);
    assert_eq!(definition.builder_fn, vec![TypeArgument::UnsetMarker; 3]);
    assert_eq!(definition.default_constructor.calls, vec![0, 1, 2]);
    let names: Vec<&str> = definition.default_constructor.parameters.iter().map(|f| f.name.as_str()).collect();
    assert_eq!(names, vec!["a", "b", "c"]);
}

#[test]
fn every_permutation_with_optional_calls_reaches_build() {
    let schema = abcd_schema();
    let definition = generate_operation_builder(&schema);
    let d = setter_index(&schema, "d");
    let orders = [[0, 1, 2], [0, 2, 1], [1, 0, 2], [1, 2, 0], [2, 0, 1], [2, 1, 0]];
    for order in orders {
        let mut builder = OperationBuilder::new(&definition);
        for (step, m) in order.iter().enumerate() {
            for _ in 0..step {
                builder.set(&definition, d, &vec![0]);
            }
            assert!(!builder.has_build(&definition));
            builder.set(&definition, *m, &vec![*m as u64]);
            assert!(!builder.has_setter(&definition, *m));
        }
        assert!(builder.has_build(&definition));
        let operands: Vec<u64> = order.iter().filter(|m| **m < 2).map(|m| *m as u64).collect();
        assert_eq!(builder.build(&definition).operands, operands);
    }
}

#[test]
fn variadic_setter_takes_a_sequence() {
    let schema = OperationSchema {
        name: "Call".to_string(),
        full_name: "test.call".to_string(),
        summary: String::new(),
        description: String::new(),
        results: vec![field("out", Category::Result, Cardinality::Variadic)],
        operands: vec![
            field("callee", Category::Operand, Cardinality::Single),
            field("args", Category::Operand, Cardinality::Variadic),
        ],
        regions: vec![field("body", Category::Region, Cardinality::Single)],
        successors: vec![field("next", Category::Successor, Cardinality::Optional)],
        attributes: vec![],
        can_infer_type: false,
    };
    assert!(schema.operands[1].takes_sequence());
    assert!(!schema.operands[0].takes_sequence());
    let definition = generate_operation_builder(&schema);
    assert_eq!(definition.parameters.len(), 2);
    let mut builder = OperationBuilder::new(&definition);
    builder.set(&definition, 2, &vec![5, 6, 7]);
    builder.set(&definition, 0, &vec![]);
    builder.set(&definition, 1, &vec![4]);
    assert!(!builder.has_build(&definition));
    builder.set(&definition, 3, &vec![8]);
    builder.set(&definition, 4, &vec![9]);
    assert!(builder.has_build(&definition));
    let operation = builder.build(&definition);
    assert_eq!(operation.operands, vec![5, 6, 7, 4]);
    assert_eq!(operation.regions, vec![8]);
    assert_eq!(operation.successors, vec![9]);
    assert!(operation.results.is_empty());
}
