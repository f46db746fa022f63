use icmc::assembler::Label;
use icmc::peripherals::{Color as ScreenColor, Video};
use icmc::video::{Color, VideoError, VideoModule};

#[test]
fn color_codes() {
    assert_eq!(Some(Color::White), Color::color(0));
    assert_eq!(Some(Color::Red), Color::color(9));
    assert_eq!(Some(Color::Black), Color::color(15));
    assert_eq!(None, Color::color(16));
}

#[test]
fn video_module_cells() {
    let mut v = VideoModule::new(40, 30);
    assert_eq!(1200, v.buffer_len());
    assert_eq!(40, v.width());
    assert_eq!(30, v.height());
    assert_eq!(Some(&(0, Color::Black)), v.pixelmap(5));
    assert_eq!(None, v.pixelmap(1200));
    assert_eq!(Ok(()), v.set_pixelmap(5, (65, Color::Red)));
    assert_eq!(Some(&(65, Color::Red)), v.pixelmap(5));
    assert_eq!(Err(VideoError::InvalidIndex(1200)), v.set_pixelmap(1200, (65, Color::Red)));
}

#[test]
fn screen_peripheral() {
    let mut v = Video::new(4, 2);
    assert_eq!(8, v.buffer.len());
    v.set_pixel(3, b'a', ScreenColor::Blue);
    assert_eq!((b'a', ScreenColor::Blue), v.buffer[3]);
}

#[test]
fn label_holds_name_and_address() {
    let l = Label::new("main".to_string(), 12);
    assert_eq!("main", l.name.as_str());
    assert_eq!(12, l.addr);
}

#[test]
fn video_error_message() {
    assert_eq!("Índice inválido: 9", VideoError::InvalidIndex(9).to_string());
    assert_eq!("Cor inválida: 20", VideoError::InvalidColor(20).to_string());
}
