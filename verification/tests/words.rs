use std::collections::BTreeMap;

use pencil_fft::layout::Direction;
use pencil_fft::words::operation_word;
use pencil_fft::words::Operation;
use pencil_fft::words::PlanFamily;

const FAMILIES: [PlanFamily; 6] = [
    PlanFamily::C2c,
    PlanFamily::R2c,
    PlanFamily::R2r,
    PlanFamily::Dht,
    PlanFamily::MixedC2c,
    PlanFamily::MixedR2c,
];

const DIRECTIONS: [Direction; 3] = [Direction::Forward, Direction::Inverse, Direction::Backward];

#[test]
fn native_operation_words_do_not_collide() {
    let mut words: BTreeMap<u64, String> = BTreeMap::new();
    for in_place in [false, true] {
        for direction in DIRECTIONS {
            let word = operation_word(Operation::Many { direction, in_place }).unwrap();
            assert!((121..=126).contains(&word));
            assert!(words.insert(word, String::from("collections reservation")).is_none());
        }
    }
    assert_eq!(words.len(), 6);
    let mut operations = Vec::new();
    for family in FAMILIES {
        operations.push(Operation::Plan { family });
        operations.push(Operation::PlanNative { family });
        for direction in DIRECTIONS {
            operations.push(Operation::Overlap { family, direction });
            for in_place in [false, true] {
                operations.push(Operation::Run { family, direction, in_place });
                operations.push(Operation::Timed { family, direction, in_place });
            }
        }
    }
    for operation in operations {
        if let Some(word) = operation_word(operation) {
            let name = match operation {
                Operation::PlanNative { .. } => String::from("NATIVE"),
                _ => format!("{operation:?}"),
            };
            assert!(
                words.insert(word, name).is_none(),
                "operation word collision: {operation:?}"
            );
        }
    }
    for word in 127..=132 {
        let name = words.get(&word).expect("native family reservation");
        assert!(name.contains("NATIVE"));
    }
}
