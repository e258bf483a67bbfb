use query_planner::chunk::Chunk;
use query_planner::chunk::ChunkEntry;
use query_planner::chunk::ChunkMetaInfo;
use query_planner::chunk::DataField;
use query_planner::chunk::DataSchema;
use query_planner::chunk::Value;
use query_planner::scalar::Literal;
use query_planner::types::DataType;
use query_planner::types::NumberDataType;

fn u64_type() -> DataType {
    DataType::number(NumberDataType::UInt64)
}

fn column(id: usize, values: &[u64]) -> ChunkEntry {
    ChunkEntry {
        id,
        data_type: u64_type(),
        value: Value::Column(values.iter().map(|v| Literal::UInt64(*v)).collect()),
    }
}

fn scalar(id: usize, v: u64) -> ChunkEntry {
    ChunkEntry { id, data_type: u64_type(), value: Value::Scalar(Literal::UInt64(v)) }
}

fn values(e: &ChunkEntry) -> Vec<u64> {
    match &e.value {
        Value::Column(c) => c
            .iter()
            .map(|l| match l {
                Literal::UInt64(v) => *v,
                other => panic!("unexpected literal {:?}", other),
            })
            .collect(),
        Value::Scalar(s) => panic!("still a scalar: {:?}", s),
    }
}

fn sample() -> Chunk {
    Chunk::new(vec![column(7, &[1, 2, 3, 4]), scalar(9, 5)], 4)
}

#[test]
fn counts_and_emptiness() {
    let c = sample();
    assert_eq!(c.num_rows(), 4);
    assert_eq!(c.num_columns(), 2);
    assert!(!c.is_empty());
    assert!(Chunk::empty().is_empty());
    assert!(Chunk::new(vec![column(1, &[])], 0).is_empty());
    assert!(c.get_meta().is_none());
    assert_eq!(c.columns().len(), 2);
}

#[test]
fn lookup_by_offset_and_id() {
    let c = sample();
    assert_eq!(c.get_by_offset(1).id, 9);
    assert_eq!(values(c.get_by_id(7)), vec![1, 2, 3, 4]);
    assert_eq!(c.get_by_id(9).id, 9);
}

#[test]
fn convert_to_full_repeats_scalars() {
    let full = sample().convert_to_full();
    assert_eq!(full.num_rows(), 4);
    assert_eq!(values(full.get_by_offset(0)), vec![1, 2, 3, 4]);
    assert_eq!(values(full.get_by_offset(1)), vec![5, 5, 5, 5]);
}

#[test]
fn slice_keeps_rows_in_range() {
    let meta = Some(ChunkMetaInfo { name: "m".to_string() });
    let c = Chunk::new_with_meta(vec![column(7, &[1, 2, 3, 4]), scalar(9, 5)], 4, meta);
    let s = c.slice(1..3);
    assert_eq!(s.num_rows(), 2);
    assert_eq!(values(s.get_by_offset(0)), vec![2, 3]);
    assert!(matches!(&s.get_by_offset(1).value, Value::Scalar(Literal::UInt64(5))));
    assert_eq!(s.get_meta().unwrap().name, "m");
}

#[test]
fn fit_schema_keeps_the_chunk() {
    let schema = DataSchema {
        fields: vec![
            DataField { name: "a".to_string(), data_type: u64_type() },
            DataField { name: "b".to_string(), data_type: u64_type() },
        ],
    };
    let c = sample().fit_schema(schema);
    assert_eq!(c.num_rows(), 4);
    assert_eq!(values(c.get_by_offset(0)), vec![1, 2, 3, 4]);
}

#[test]
fn add_column_appends() {
    let mut c = sample();
    c.add_column(column(11, &[9, 8, 7, 6]));
    assert_eq!(c.num_columns(), 3);
    assert_eq!(values(c.get_by_id(11)), vec![9, 8, 7, 6]);
}

#[test]
fn remove_column_by_offset() {
    let c = sample().remove_column_index(0).unwrap();
    assert_eq!(c.num_columns(), 1);
    assert_eq!(c.get_by_offset(0).id, 9);
    assert_eq!(c.num_rows(), 4);
}

#[test]
fn replace_and_read_meta() {
    let c = sample().add_meta(Some(ChunkMetaInfo { name: "part".to_string() })).unwrap();
    assert_eq!(c.meta().unwrap().unwrap().name, "part");
    assert_eq!(c.num_columns(), 2);
    let c = c.add_meta(None).unwrap();
    assert!(c.meta().unwrap().is_none());
}
