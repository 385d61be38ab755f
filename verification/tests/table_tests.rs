use cfr_solver::codec::{load_equity_table, table_from_bytes, table_to_bytes, TableError};
use cfr_solver::equity::{validate_equity_table, NUM_BOARDS, TABLE_SUM};
use cfr_solver::hands::{pair_index, NUM_HANDS};

/// The table in which every matchup of two disjoint holdings scores the
/// board count exactly (as if every board were a tie) and every
/// shared-card matchup scores zero. It satisfies the combinatorial
/// identities a correct equity table must satisfy.
fn synthetic_table() -> Vec<i32> {
    let mut table = Vec::with_capacity(NUM_HANDS * NUM_HANDS);
    for i in 0..51usize {
        for j in (i + 1)..52 {
            for m in 0..51usize {
                for n in (m + 1)..52 {
                    if i == m || i == n || j == m || j == n {
                        table.push(0);
                    } else {
                        table.push(NUM_BOARDS as i32);
                    }
                }
            }
        }
    }
    table
}

#[test]
fn pair_index_enumeration_order() {
    let mut k = 0usize;
    for i in 0..51usize {
        for j in (i + 1)..52 {
            assert_eq!(pair_index(i, j), k);
            k += 1;
        }
    }
    assert_eq!(k, NUM_HANDS);
}

#[test]
fn pair_index_closed_form_samples() {
    assert_eq!(pair_index(0, 1), 0);
    assert_eq!(pair_index(0, 51), 50);
    assert_eq!(pair_index(1, 2), 51);
    assert_eq!(pair_index(2, 5), 103);
    assert_eq!(pair_index(50, 51), 1325);
}

#[test]
fn table_bytes_layout() {
    let bytes = table_to_bytes(&vec![1, -1]);
    assert_eq!(
        bytes,
        vec![2, 0, 0, 0, 0, 0, 0, 0, 1, 0, 0, 0, 255, 255, 255, 255]
    );
}

#[test]
fn table_round_trip() {
    let mut table = vec![0i32; NUM_HANDS * NUM_HANDS];
    table[0] = 123456;
    table[NUM_HANDS * NUM_HANDS - 1] = -77;
    let bytes = table_to_bytes(&table);
    assert_eq!(bytes.len(), 8 + 4 * NUM_HANDS * NUM_HANDS);
    assert_eq!(table_from_bytes(&bytes), Ok(table));
}

#[test]
fn table_decode_accepts_trailing_bytes() {
    let table = vec![7i32; NUM_HANDS * NUM_HANDS];
    let mut bytes = table_to_bytes(&table);
    bytes.push(99);
    assert_eq!(table_from_bytes(&bytes), Ok(table));
}

#[test]
fn table_decode_rejects_wrong_length() {
    let bytes = table_to_bytes(&vec![5i32; 10]);
    assert_eq!(table_from_bytes(&bytes), Err(TableError::WrongLength));
}

#[test]
fn table_decode_rejects_truncated_input() {
    let table = vec![7i32; NUM_HANDS * NUM_HANDS];
    let mut bytes = table_to_bytes(&table);
    bytes.truncate(bytes.len() - 1);
    assert_eq!(table_from_bytes(&bytes), Err(TableError::Malformed));
    assert_eq!(table_from_bytes(&[1, 2, 3]), Err(TableError::Malformed));
}

#[test]
fn equity_identities_hold_for_synthetic_table() {
    let table = synthetic_table();
    assert_eq!(table.len(), NUM_HANDS * NUM_HANDS);
    let total: i64 = table.iter().map(|&x| x as i64).sum();
    assert_eq!(total, TABLE_SUM);
    assert!(validate_equity_table(&table));
}

#[test]
fn equity_validation_rejects_wrong_sum() {
    let mut table = synthetic_table();
    let k = pair_index(0, 1) * NUM_HANDS + pair_index(2, 3);
    table[k] += 1;
    assert!(!validate_equity_table(&table));
}

#[test]
fn equity_validation_rejects_nonzero_shared_entry() {
    let mut table = synthetic_table();
    // Move one point from a disjoint matchup to an overlapping one: the
    // total still matches, the shared-card entry does not.
    let shared = pair_index(0, 1) * NUM_HANDS + pair_index(1, 2);
    let disjoint = pair_index(0, 1) * NUM_HANDS + pair_index(2, 3);
    table[shared] += 1;
    table[disjoint] -= 1;
    assert!(!validate_equity_table(&table));
}

#[test]
fn load_accepts_exactly_the_credible_tables() {
    let table = synthetic_table();
    let bytes = table_to_bytes(&table);
    assert_eq!(load_equity_table(&bytes), Ok(table.clone()));

    let mut broken = table;
    let k = pair_index(3, 40) * NUM_HANDS + pair_index(7, 19);
    broken[k] -= 1;
    let bytes = table_to_bytes(&broken);
    assert_eq!(load_equity_table(&bytes), Err(TableError::Corrupt));

    assert_eq!(load_equity_table(&[0, 1, 2]), Err(TableError::Malformed));
    let bytes = table_to_bytes(&vec![1i32, 2, 3]);
    assert_eq!(load_equity_table(&bytes), Err(TableError::WrongLength));
}

#[test]
fn equity_validation_rejects_wrong_size() {
    assert!(!validate_equity_table(&vec![0i32; 5]));
    assert!(!validate_equity_table(&synthetic_table()[..NUM_HANDS].to_vec()));
}
