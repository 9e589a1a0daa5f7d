use std::cell::Cell;

use pencil_fft::collections::begin;
use pencil_fft::collections::member_result;
use pencil_fft::collections::run_many;
use pencil_fft::collections::run_members;
use pencil_fft::collections::ManyCall;
use pencil_fft::collections::Paired;
use pencil_fft::collections::Peers;
use pencil_fft::collections::Single;
use pencil_fft::error::CollectionError;
use pencil_fft::error::FftError;
use pencil_fft::error::R2rError;
use pencil_fft::layout::Direction;
use pencil_fft::words::PlanFamily;

type Same = fn(u64, &Vec<u64>) -> Result<(), FftError>;

fn call(sources: usize, destinations: usize) -> ManyCall {
    ManyCall {
        family: PlanFamily::R2r,
        direction: Direction::Inverse,
        in_place: false,
        sources,
        destinations,
    }
}

fn same(_operation: u64, _words: &Vec<u64>) -> Result<(), FftError> {
    Ok(())
}

fn differs(_operation: u64, _words: &Vec<u64>) -> Result<(), FftError> {
    Err(FftError::CollectiveDescriptorMismatch)
}

fn fails(_operation: u64, _words: &Vec<u64>) -> Result<(), FftError> {
    Err(FftError::PreparationFailed)
}

fn start(header: bool, descriptor: Same, sources: usize, destinations: usize) -> Result<(), CollectionError<R2rError>> {
    let peers = Peers {
        header: |words: [u64; 5]| -> bool {
            assert_eq!(words, [1, 122, sources as u64, destinations as u64, 3]);
            header
        },
        descriptor,
        agree: |valid: bool| -> bool { valid },
    };
    begin(&peers, call(sources, destinations), &vec![7, 8])
}

#[test]
fn collection_starts_with_agreement() {
    assert_eq!(start(true, same, 2, 2), Ok(()));
    assert_eq!(start(false, same, 2, 3), Err(CollectionError::HeaderMismatch));
    assert_eq!(
        start(true, same, 2, 3),
        Err(CollectionError::CountMismatch { sources: 2, destinations: 3 })
    );
    assert_eq!(start(true, same, 0, 0), Err(CollectionError::Empty));
    assert_eq!(start(true, differs, 1, 1), Err(CollectionError::HeaderMismatch));
    assert_eq!(
        start(true, fails, 1, 1),
        Err(CollectionError::Descriptor { error: FftError::PreparationFailed })
    );
}

#[test]
fn members_are_named_by_their_position() {
    let own = R2rError::Fft(FftError::WorkspaceMismatch);
    assert_eq!(member_result::<R2rError>(4, Ok(()), true, true), Ok(()));
    assert_eq!(
        member_result(4, Err(own), false, true),
        Err(CollectionError::Member { index: 4, error: own })
    );
    assert_eq!(
        member_result::<R2rError>(4, Ok(()), false, true),
        Err(CollectionError::PeerPreflight { index: 4 })
    );
    assert_eq!(
        member_result::<R2rError>(4, Ok(()), false, false),
        Err(CollectionError::PeerExecution { index: 4 })
    );
}

#[test]
fn rejected_member_keeps_everything() {
    let peers = Peers {
        header: |_words: [u64; 5]| -> bool { true },
        descriptor: same as Same,
        agree: |valid: bool| -> bool { valid },
    };
    let own = R2rError::Fft(FftError::InputLayoutMismatch);
    let verdicts = vec![Ok(()), Err(own), Ok(())];
    let execute = |index: usize, array: i32, seen: Vec<usize>| -> ((i32, Vec<usize>), Result<(), R2rError>) {
        let mut seen = seen;
        seen.push(index);
        ((-array, seen), Ok(()))
    };
    let members = Single { execute: &execute, arrays: 3 };
    let state = (vec![1, 2, 3], Vec::new());
    let ((arrays, seen), outcome) = run_many(&peers, call(3, 3), &vec![], &verdicts, &members, state);
    assert!(seen.is_empty());
    assert_eq!(arrays, vec![1, 2, 3]);
    assert_eq!(outcome, Err(CollectionError::Member { index: 1, error: own }));
}

#[test]
fn failed_member_leaves_later_ones_untouched() {
    let own = R2rError::Fft(FftError::PreparationFailed);
    let execute = |index: usize, _array: i32, seen: usize| -> ((i32, usize), Result<(), R2rError>) {
        ((-1, seen + 1), if index == 1 { Err(own) } else { Ok(()) })
    };
    let agree = |valid: bool| -> bool { valid };
    let members = Single { execute: &execute, arrays: 3 };
    let (state, outcome) = run_members(&agree, &members, 3, (vec![5, 6, 7], 0));
    assert_eq!(state, (vec![-1, -1, 7], 2));
    assert_eq!(outcome, Err(CollectionError::Member { index: 1, error: own }));
}

#[test]
fn failure_of_a_peer_ends_the_execution() {
    let asked = Cell::new(0);
    let agree = |valid: bool| -> bool {
        asked.set(asked.get() + 1);
        valid && asked.get() != 2
    };
    let execute = |index: usize, array: i32, seen: Vec<usize>| -> ((i32, Vec<usize>), Result<(), R2rError>) {
        let mut seen = seen;
        seen.push(index);
        ((-array, seen), Ok(()))
    };
    let members = Single { execute: &execute, arrays: 4 };
    let (state, outcome) = run_members(&agree, &members, 4, (vec![1, 2, 3, 4], Vec::new()));
    assert_eq!(state, (vec![-1, -2, 3, 4], vec![0, 1]));
    assert_eq!(outcome, Err(CollectionError::PeerExecution { index: 1 }));
}

#[test]
fn members_run_in_order() {
    let peers = Peers {
        header: |_words: [u64; 5]| -> bool { true },
        descriptor: same as Same,
        agree: |valid: bool| -> bool { valid },
    };
    let verdicts: Vec<Result<(), R2rError>> = vec![Ok(()); 4];
    let execute = |index: usize, array: i32, seen: Vec<usize>| -> ((i32, Vec<usize>), Result<(), R2rError>) {
        let mut seen = seen;
        seen.push(index);
        ((-array, seen), Ok(()))
    };
    let members = Single { execute: &execute, arrays: 4 };
    let state = (vec![1, 2, 3, 4], Vec::new());
    let (state, outcome) = run_many(&peers, call(4, 4), &vec![1], &verdicts, &members, state);
    assert_eq!(state, (vec![-1, -2, -3, -4], vec![0, 1, 2, 3]));
    assert_eq!(outcome, Ok(()));
}

#[test]
fn each_member_has_its_own_source_and_array() {
    let agree = |valid: bool| -> bool { valid };
    let execute = |index: usize, source: &i32, array: i32, total: i32| -> ((i32, i32), Result<(), R2rError>) {
        assert_eq!(index as i32, *source / 10);
        ((array + *source, total + *source), Ok(()))
    };
    let sources = vec![0, 10, 20];
    let members = Paired { sources: &sources, execute: &execute, arrays: 3 };
    let (state, outcome) = run_members(&agree, &members, 2, (vec![5, 6, 7], 0));
    assert_eq!(state, (vec![5, 16, 7], 10));
    assert_eq!(outcome, Ok(()));
}
