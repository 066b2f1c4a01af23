use moss::error::KernelError;
use moss::uaccess::{
    after_copy_attempt, after_fault_poll, do_copy_from_user, try_copy_from_user, FaultPoll, UAccessResult,
    UAccessStep, X86_64CopyFromUser, X86_64CopyStrnFromUser, X86_64CopyToUser,
};

fn ready(step: UAccessStep) -> Result<usize, KernelError> {
    match step {
        UAccessStep::Ready(r) => r,
        _ => panic!("copy did not complete"),
    }
}

#[test]
fn fault_handler_status_codes() {
    assert_eq!(UAccessResult::from(0u64), UAccessResult::Complete);
    assert_eq!(UAccessResult::from(1u64), UAccessResult::AbortDenied);
    assert_eq!(UAccessResult::from(2u64), UAccessResult::AbortDeferred);
    assert_eq!(UAccessResult::from(99u64), UAccessResult::AbortDenied);
}

#[test]
fn polling_a_deferred_fault() {
    assert!(matches!(after_fault_poll(FaultPoll::Pending), UAccessStep::Pending));
    assert!(matches!(after_fault_poll(FaultPoll::Resolved), UAccessStep::Retry));
    assert_eq!(ready(after_fault_poll(FaultPoll::Failed)), Err(KernelError::Fault));
}

#[test]
fn copy_attempt_outcomes() {
    let mut done = 3usize;
    assert_eq!(ready(after_copy_attempt(UAccessResult::Complete, 10, &mut done)), Ok(10));
    assert_eq!(done, 3);
    assert_eq!(ready(after_copy_attempt(UAccessResult::AbortDenied, 10, &mut done)), Err(KernelError::Fault));
    assert_eq!(done, 3);
    assert!(matches!(after_copy_attempt(UAccessResult::AbortDeferred, 6, &mut done), UAccessStep::Retry));
    assert_eq!(done, 6);
}

#[test]
fn try_copy_copies_the_prefix() {
    let user = [1u8, 2, 3, 4, 5];
    let mut dst = vec![9u8; 6];
    assert_eq!(try_copy_from_user(&user, &mut dst, 4), Ok(()));
    assert_eq!(dst, vec![1, 2, 3, 4, 9, 9]);
}

#[test]
fn copy_with_nothing_left_reports_progress() {
    let user = [1u8, 2];
    let mut dst = vec![0u8; 2];
    let r = do_copy_from_user(&user, &mut dst, 2, 2);
    assert_eq!(r, (UAccessResult::Complete, 0, 0, 2));
    assert_eq!(dst, vec![0, 0]);
}

#[test]
fn copy_resumes_after_earlier_progress() {
    let user = [7u8, 8, 9];
    let mut dst = vec![0u8; 5];
    let r = do_copy_from_user(&user, &mut dst, 5, 2);
    assert_eq!(r.3, 5);
    assert_eq!(dst, vec![0, 0, 7, 8, 9]);
}

#[test]
fn copy_from_user_future() {
    let mut c = X86_64CopyFromUser::new(0x4000, 0xffff_8880_0000_1000, 3);
    assert_eq!(c.bytes_copied, 0);
    let mut dst = vec![0u8; 3];
    assert_eq!(ready(c.poll_copy(&[5, 6, 7, 8], &mut dst)), Ok(3));
    assert_eq!(dst, vec![5, 6, 7]);
}

#[test]
fn copy_to_user_future() {
    let mut c = X86_64CopyToUser::new(0xffff_8880_0000_1000, 0x4000, 2);
    let mut user = vec![0u8; 4];
    assert_eq!(ready(c.poll_copy(&[1, 2, 3], &mut user)), Ok(2));
    assert_eq!(user, vec![1, 2, 0, 0]);
}

#[test]
fn strn_copy_stops_at_the_terminator() {
    let mut c = X86_64CopyStrnFromUser::new(0x4000, 0xffff_8880_0000_1000, 8);
    let user = b"hi\0there".to_vec();
    let mut dst = vec![0xAAu8; 9];
    assert_eq!(ready(c.poll_copy(&user, &mut dst)), Ok(2));
    assert_eq!(&dst[..3], b"hi\0");
    assert_eq!(dst[3], 0xAA);
}

#[test]
fn strn_copy_without_terminator_fills_the_limit_and_terminates() {
    let mut c = X86_64CopyStrnFromUser::new(0x4000, 0xffff_8880_0000_1000, 4);
    let user = b"abcdef".to_vec();
    let mut dst = vec![0xAAu8; 5];
    assert_eq!(ready(c.poll_copy(&user, &mut dst)), Ok(4));
    assert_eq!(dst, b"abcd\0".to_vec());
}

#[test]
fn strn_copy_of_zero_length() {
    let mut c = X86_64CopyStrnFromUser::new(0x4000, 0x5000, 0);
    let mut dst = vec![1u8; 1];
    assert_eq!(ready(c.poll_copy(&[], &mut dst)), Ok(0));
    assert_eq!(dst, vec![1]);
}
