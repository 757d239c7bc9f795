use rusttransformer::attention::Attention;
use rusttransformer::logger::CustomLogger;
use rusttransformer::schedule::{train_pool_size, TrainAction, TrainSchedule};

#[test]
fn schedule_reports_each_window_and_tests_on_the_gap() {
    let mut s = TrainSchedule::new(2, 2);
    assert_eq!(s.step(), TrainAction::Continue);
    assert_eq!(s.step(), TrainAction::LogAverage);
    assert_eq!(s.step(), TrainAction::Continue);
    assert_eq!(s.step(), TrainAction::LogAverageAndTest);
    assert_eq!(s.step(), TrainAction::Continue);
    assert_eq!(s.step(), TrainAction::LogAverage);
}

#[test]
fn single_example_window_reports_every_step() {
    let mut s = TrainSchedule::new(1, 3);
    assert_eq!(s.step(), TrainAction::LogAverage);
    assert_eq!(s.step(), TrainAction::LogAverage);
    assert_eq!(s.step(), TrainAction::LogAverageAndTest);
    assert_eq!(s.step(), TrainAction::LogAverage);
}

#[test]
fn training_pool_excludes_the_held_out_examples() {
    assert_eq!(train_pool_size(1000, 200), Some(800));
    assert_eq!(train_pool_size(201, 200), Some(1));
    assert_eq!(train_pool_size(200, 200), None);
    assert_eq!(train_pool_size(10, 200), None);
}

#[test]
fn attention_block_is_constructed() {
    let _block = Attention::new(7);
}

#[test]
fn logger_prints_up_to_the_informational_level() {
    assert!(CustomLogger::enabled_rank(1));
    assert!(CustomLogger::enabled_rank(2));
    assert!(CustomLogger::enabled_rank(3));
    assert!(!CustomLogger::enabled_rank(4));
    assert!(!CustomLogger::enabled_rank(5));
}
