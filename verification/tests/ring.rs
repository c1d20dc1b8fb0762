use ringbuf::traits::{Consumer, Observer, Producer};
use virtual_soundboard::ring::{mic_ring_halves, SILENT_SAMPLE};

#[test]
fn small_latency_gets_the_minimum_capacity_and_is_prefilled() {
    let (producer, mut consumer) = mic_ring_halves(10);
    assert_eq!(consumer.inner.capacity().get(), 1024);
    assert_eq!(consumer.inner.occupied_len(), 10);
    assert_eq!(producer.inner.vacant_len(), 1014);
    for _ in 0..10 {
        assert_eq!(consumer.inner.try_pop(), Some(SILENT_SAMPLE));
    }
    assert_eq!(consumer.inner.try_pop(), None);
}

#[test]
fn large_latency_gets_four_times_the_latency() {
    let (mut producer, consumer) = mic_ring_halves(3_840);
    assert_eq!(consumer.inner.capacity().get(), 15_360);
    assert_eq!(consumer.inner.occupied_len(), 3_840);
    assert!(producer.inner.try_push(0.5f32.to_bits()).is_ok());
    assert_eq!(consumer.inner.occupied_len(), 3_841);
}

#[test]
fn zero_latency_starts_empty() {
    let (_producer, consumer) = mic_ring_halves(0);
    assert_eq!(consumer.inner.capacity().get(), 1024);
    assert_eq!(consumer.inner.occupied_len(), 0);
}

#[test]
fn silent_sample_is_zero() {
    assert_eq!(f32::from_bits(SILENT_SAMPLE), 0.0);
}
