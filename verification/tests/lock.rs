use mutex_trait::{Exclusive, Mutex};
use std::cell::RefCell;
use telemetry_node::sampler::{sample, Channel, READ_ERROR};
use telemetry_node::stats::{render, store, MetricStore};

#[test]
fn store_and_render_under_a_lock() {
    let mut stats: MetricStore<f32> = MetricStore::new();
    let mut lock = Exclusive::new(&mut stats);
    lock.lock(|stats| store(stats, "voltage_volts", 3.6));
    lock.lock(|stats| store(stats, "voltage_volts", 3.7));
    let text = lock.lock(|stats| render(stats, 2.0));
    assert_eq!(text, "voltage_volts{version=\"rust\"} 3.7\nuptime_seconds 2\n");
}

#[test]
fn sampler_and_reader_share_one_store() {
    let cell = RefCell::new(MetricStore::<f32>::new());
    let mut sampler = &cell;
    let mut reader = &cell;
    let taken = sampler.lock(|stats| sample(stats, Channel::Temperature, 1024, |raw| raw as f32));
    assert_eq!(taken, Ok(()));
    assert_eq!(
        reader.lock(|stats| render(stats, 0.0)),
        "temperature_celsius{version=\"rust\"} 1024\nuptime_seconds 0\n"
    );
    let failed = sampler.lock(|stats| sample(stats, Channel::Temperature, READ_ERROR, |_| 0.0));
    assert!(failed.is_err());
    assert_eq!(
        reader.lock(|stats| render(stats, 5.0)),
        "temperature_celsius{version=\"rust\"} 1024\nuptime_seconds 5\n"
    );
}
