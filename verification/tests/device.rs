use wobl::{
    Backend, Cell, Device, DrawCall, Driver, Key, KeyEvent, KeyInput, RenderMode, Wobl,
};

/// What the scripted device was asked to do.
#[derive(Debug, Clone, PartialEq)]
enum Did {
    Init(String, u32, u32),
    Draw(u32, u32, char),
    Flush,
    ReadKeys,
    Sleep(u64),
}

/// A device with a clock that only moves when it is told to or sleeps, and
/// a keyboard that hands over what the test put there.
struct Scripted {
    mode: RenderMode,
    clock: u64,
    work: u64,
    inputs: Vec<KeyInput>,
    did: Vec<Did>,
}

impl Scripted {
    fn new(mode: RenderMode) -> Self {
        Scripted { mode, clock: 1_000, work: 0, inputs: Vec::new(), did: Vec::new() }
    }
}

impl Device for Scripted {
    fn render_mode(&self) -> RenderMode {
        self.mode
    }

    fn init(&mut self, title: &str, width: u32, height: u32) {
        self.did.push(Did::Init(title.to_string(), width, height));
    }

    fn draw_cell(&mut self, x: u32, y: u32, cell: &Cell) {
        self.did.push(Did::Draw(x, y, cell.ch));
    }

    fn flush(&mut self) {
        self.did.push(Did::Flush);
    }

    fn read_keys(&mut self) -> KeyInput {
        self.did.push(Did::ReadKeys);
        self.clock += self.work;
        if self.inputs.is_empty() {
            KeyInput::Events(Vec::new())
        } else {
            self.inputs.remove(0)
        }
    }

    fn now(&self) -> u64 {
        self.clock
    }

    fn sleep(&mut self, millis: u64) {
        self.did.push(Did::Sleep(millis));
        self.clock += millis;
    }
}

fn sleeps(driver: &Driver<Scripted>) -> Vec<u64> {
    driver
        .device()
        .did
        .iter()
        .filter_map(|d| if let Did::Sleep(ms) = d { Some(*ms) } else { None })
        .collect()
}

#[test]
fn driver_waits_out_the_rest_of_the_frame() {
    let mut device = Scripted::new(RenderMode::Diffing);
    device.work = 30;
    let mut driver = Driver::new(device);
    driver.set_fps(Some(10));
    assert_eq!(driver.pacer().target(), Some(100));
    driver.wait_frame();
    assert_eq!(sleeps(&driver), vec![70]);
    assert_eq!(driver.pacer().frame_start(), 1_100);
    driver.wait_frame();
    assert_eq!(sleeps(&driver), vec![70, 70]);
    assert_eq!(driver.pacer().frame_start(), 1_200);
}

#[test]
fn driver_does_not_wait_after_a_long_frame() {
    let mut device = Scripted::new(RenderMode::Diffing);
    device.work = 150;
    let mut driver = Driver::new(device);
    driver.set_fps(Some(10));
    driver.wait_frame();
    assert_eq!(sleeps(&driver), vec![]);
    assert_eq!(driver.pacer().frame_start(), 1_150);
    driver.wait_frame();
    assert_eq!(sleeps(&driver), vec![]);
    assert_eq!(driver.pacer().frame_start(), 1_300);
}

#[test]
fn driver_without_a_rate_never_waits() {
    let mut device = Scripted::new(RenderMode::Diffing);
    device.work = 1;
    let mut driver = Driver::new(device);
    driver.wait_frame();
    driver.set_fps(Some(10));
    driver.set_fps(None);
    driver.wait_frame();
    assert_eq!(sleeps(&driver), vec![]);
}

#[test]
fn advance_decides_without_touching_the_device() {
    let mut driver = Driver::new(Scripted::new(RenderMode::Diffing));
    driver.set_fps(Some(10));
    let wait = driver.advance(&KeyInput::Down(vec![Key::A, Key::Unknown]), 1_030);
    assert_eq!(wait, 70);
    assert!(driver.is_key_pressed(Key::A));
    assert!(driver.is_key_just_pressed(Key::A));
    assert!(!driver.is_key_pressed(Key::Unknown));
    let wait = driver.advance(&KeyInput::Events(vec![KeyEvent::Release(Key::A)]), 1_150);
    assert_eq!(wait, 0);
    assert!(!driver.is_key_pressed(Key::A));
    assert!(driver.is_key_just_released(Key::A));
    assert_eq!(driver.device().did, vec![]);
    assert_eq!(driver.pacer().frame_start(), 1_000);
}

#[test]
fn driver_samples_a_polled_keyboard() {
    let mut device = Scripted::new(RenderMode::Diffing);
    device.inputs = vec![
        KeyInput::Down(vec![Key::A]),
        KeyInput::Down(vec![Key::A, Key::B]),
        KeyInput::Down(vec![Key::B]),
    ];
    let mut driver = Driver::new(device);
    driver.wait_frame();
    driver.wait_frame();
    assert!(driver.is_key_pressed(Key::A) && driver.is_key_pressed(Key::B));
    assert!(driver.is_key_just_pressed(Key::B) && !driver.is_key_just_pressed(Key::A));
    assert!(!driver.is_key_just_released(Key::A) && !driver.is_key_just_released(Key::B));
    driver.wait_frame();
    assert!(!driver.is_key_pressed(Key::A) && driver.is_key_pressed(Key::B));
    assert!(!driver.is_key_just_pressed(Key::A) && !driver.is_key_just_pressed(Key::B));
    assert!(driver.is_key_just_released(Key::A) && !driver.is_key_just_released(Key::B));
}

#[test]
fn driver_samples_a_keyboard_that_queues_events() {
    let mut device = Scripted::new(RenderMode::Diffing);
    device.inputs = vec![
        KeyInput::Events(vec![KeyEvent::Press(Key::Up), KeyEvent::Press(Key::Up)]),
        KeyInput::Events(vec![KeyEvent::Press(Key::Up)]),
        KeyInput::Events(vec![KeyEvent::Release(Key::Up), KeyEvent::Press(Key::Unknown)]),
    ];
    let mut driver = Driver::new(device);
    driver.wait_frame();
    assert!(driver.is_key_pressed(Key::Up) && driver.is_key_just_pressed(Key::Up));
    driver.wait_frame();
    assert!(driver.is_key_pressed(Key::Up) && !driver.is_key_just_pressed(Key::Up));
    driver.wait_frame();
    assert!(!driver.is_key_pressed(Key::Up) && driver.is_key_just_released(Key::Up));
    assert!(!driver.is_key_pressed(Key::Unknown) && !driver.is_key_just_pressed(Key::Unknown));
}

#[test]
fn driver_passes_requests_on_in_order() {
    let mut w = Wobl::new(Driver::new(Scripted::new(RenderMode::Diffing)), "win", 3, 2, Some(10));
    w.draw_text(1, 1, "Xy", wobl::Color::new(1, 2, 3), wobl::Color::new(4, 5, 6));
    w.wait_frame();
    w.wait_frame();
    assert_eq!(
        w.backend().device().did,
        vec![
            Did::Init("win".to_string(), 3, 2),
            Did::Draw(1, 1, 'X'),
            Did::Draw(2, 1, 'y'),
            Did::Flush,
            Did::ReadKeys,
            Did::Sleep(100),
            Did::Flush,
            Did::ReadKeys,
            Did::Sleep(100),
        ]
    );
}

#[test]
fn driver_takes_its_mode_from_the_device() {
    assert_eq!(Driver::new(Scripted::new(RenderMode::Direct)).render_mode(), RenderMode::Direct);
    assert_eq!(Driver::new(Scripted::new(RenderMode::Diffing)).render_mode(), RenderMode::Diffing);
    let mut w = Wobl::new(Driver::new(Scripted::new(RenderMode::Direct)), "d", 2, 1, None);
    w.wait_frame();
    let draws: Vec<&Did> =
        w.backend().device().did.iter().filter(|d| matches!(d, Did::Draw(..))).collect();
    assert_eq!(draws, vec![&Did::Draw(0, 0, ' '), &Did::Draw(1, 0, ' ')]);
    let _ = DrawCall { x: 0, y: 0, cell: Cell::empty() };
}
