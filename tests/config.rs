use thread_pool::config::{Args, ConfigError, DEFAULT_THREAD_COUNT};
use thread_pool::error::PoolCreationError;

#[test]
fn zero_threads_are_refused() {
    let args = Args::new(String::from("127.0.0.1:7878"), 0);
    assert_eq!(args.thread_count(), Err(ConfigError::TooFewThreads(0)));
}

#[test]
fn positive_threads_are_kept() {
    let args = Args::new(String::from("127.0.0.1:7878"), DEFAULT_THREAD_COUNT);
    assert_eq!(args.thread_count(), Ok(4));
    assert_eq!(Args::new(String::from("[::1]:80"), 1).thread_count(), Ok(1));
    assert_eq!(args.socket, "127.0.0.1:7878");
}

#[test]
fn pool_creation_error_keeps_its_message() {
    let e = PoolCreationError::new("no workers");
    assert_eq!(e.details(), "no workers");
    assert_eq!(e.to_string(), "no workers");
}
