use slime::driver::BlurDirection;
use slime::layout::{
    GpuAgent, encode_agent, encode_direction, encode_options, encode_qualities, encode_seed,
};
use slime::options::{Options, OptionsBroadcaster};
use slime::project::{Deposit, TrailImage};
use slime::species::Qualities;

#[test]
fn deposits_accumulate_additively() {
    let mut img = TrailImage::new(4, 3, 0);
    assert_eq!(img.pixel(2, 1), 0);
    img.deposit(Deposit { x: 2, y: 1, amount: 10 });
    img.deposit(Deposit { x: 2, y: 1, amount: 5 });
    img.deposit(Deposit { x: 0, y: 0, amount: 7 });
    assert_eq!(img.pixel(2, 1), 15);
    assert_eq!(img.pixel(0, 0), 7);
    assert_eq!(img.pixel(3, 2), 0);
}

#[test]
fn deposits_saturate_at_channel_max() {
    let mut img = TrailImage::new(2, 2, u32::MAX - 3);
    img.deposit(Deposit { x: 1, y: 1, amount: 10 });
    assert_eq!(img.pixel(1, 1), u32::MAX);
    img.deposit(Deposit { x: 1, y: 1, amount: 1 });
    assert_eq!(img.pixel(1, 1), u32::MAX);
    assert_eq!(img.pixel(0, 0), u32::MAX - 3);
}

#[test]
fn project_pass_is_order_independent() {
    let deposits = vec![
        Deposit { x: 0, y: 0, amount: 3 },
        Deposit { x: 5, y: 2, amount: 11 },
        Deposit { x: 0, y: 0, amount: 4 },
        Deposit { x: 7, y: 7, amount: u32::MAX },
        Deposit { x: 5, y: 2, amount: 1 },
        Deposit { x: 7, y: 7, amount: 9 },
    ];
    let mut reversed = deposits.clone();
    reversed.reverse();
    let mut shuffled = deposits.clone();
    shuffled.swap(0, 3);
    shuffled.swap(1, 5);
    shuffled.swap(2, 4);

    let mut a = TrailImage::new(8, 8, 1);
    let mut b = TrailImage::new(8, 8, 1);
    let mut c = TrailImage::new(8, 8, 1);
    a.project(&deposits);
    b.project(&reversed);
    c.project(&shuffled);
    for y in 0..8 {
        for x in 0..8 {
            assert_eq!(a.pixel(x, y), b.pixel(x, y));
            assert_eq!(a.pixel(x, y), c.pixel(x, y));
        }
    }
    assert_eq!(a.pixel(0, 0), 8);
    assert_eq!(a.pixel(5, 2), 13);
    assert_eq!(a.pixel(7, 7), u32::MAX);
    assert_eq!(a.pixel(3, 3), 1);
}

#[test]
fn trail_image_clears_to_base_on_allocation() {
    let img = TrailImage::new(3, 5, 42);
    for y in 0..5 {
        for x in 0..3 {
            assert_eq!(img.pixel(x, y), 42);
        }
    }
}

#[test]
fn seed_bytes_are_little_endian() {
    assert_eq!(encode_seed(0x0403_0201), vec![1, 2, 3, 4]);
    assert_eq!(encode_seed(0), vec![0, 0, 0, 0]);
    assert_eq!(encode_seed(u32::MAX), vec![0xff, 0xff, 0xff, 0xff]);
}

#[test]
fn direction_bytes_select_the_unit_vector() {
    assert_eq!(
        encode_direction(BlurDirection::Horizontal),
        vec![1, 0, 0, 0, 0, 0, 0, 0]
    );
    assert_eq!(
        encode_direction(BlurDirection::Vertical),
        vec![0, 0, 0, 0, 1, 0, 0, 0]
    );
}

#[test]
fn qualities_layout_matches_the_device_struct() {
    let q = Qualities {
        color_r: 0x11111111,
        color_g: 0x22222222,
        color_b: 0x33333333,
        speed: 0x44444444,
        turn_speed: 0x55555555,
        view_distance: 0x66666666,
        field_of_view: 0x77777777,
    };
    let bytes = encode_qualities(&q);
    assert_eq!(bytes.len(), 48);
    assert_eq!(&bytes[0..4], &[0x11; 4]);
    assert_eq!(&bytes[12..16], &[0x44; 4]);
    assert_eq!(&bytes[24..28], &[0x77; 4]);
    // Five padding words hold the uniform to a multiple of 16 bytes.
    assert_eq!(&bytes[28..48], &[0u8; 20]);
}

#[test]
fn options_layout_is_16_bytes() {
    let o = Options { evaporation: 0x0403_0201, diffusion: 0x0807_0605 };
    let bytes = encode_options(&o);
    assert_eq!(bytes, vec![1, 2, 3, 4, 5, 6, 7, 8, 0, 0, 0, 0, 0, 0, 0, 0]);
}

#[test]
fn agent_stride_is_16_bytes() {
    let a = GpuAgent { pos_x: 0x01010101, pos_y: 0x02020202, angle: 0x03030303 };
    let bytes = encode_agent(&a);
    assert_eq!(bytes.len(), 16);
    assert_eq!(&bytes[0..4], &[1; 4]);
    assert_eq!(&bytes[4..8], &[2; 4]);
    assert_eq!(&bytes[8..12], &[3; 4]);
    assert_eq!(&bytes[12..16], &[0; 4]);
}

#[test]
fn default_qualities_encode_the_documented_floats() {
    let q = Qualities::default();
    assert_eq!(f32::from_bits(q.color_r), 1.0);
    assert_eq!(f32::from_bits(q.color_g), 1.0);
    assert_eq!(f32::from_bits(q.color_b), 1.0);
    assert_eq!(f32::from_bits(q.speed), 6e-6);
    assert_eq!(f32::from_bits(q.turn_speed), 1e-3);
    assert_eq!(f32::from_bits(q.view_distance), 2e-2);
    assert_eq!(f32::from_bits(q.field_of_view), std::f32::consts::PI / 6.0);
}

#[test]
fn options_write_only_on_change() {
    let first = Options { evaporation: 0.001f32.to_bits(), diffusion: 1.0f32.to_bits() };
    let second = Options { evaporation: 0.002f32.to_bits(), diffusion: 1.0f32.to_bits() };
    let mut b = OptionsBroadcaster::new();
    assert_eq!(b.publish(first), Some(first));
    assert_eq!(b.publish(first), None);
    assert_eq!(b.publish(first), None);
    assert_eq!(b.publish(second), Some(second));
    assert_eq!(b.publish(first), Some(first));
}
