use momo::display::{
    extract_display_frame, handle_display_command, window_close_requested, Cell, DisplayCommand,
    I420Planes, WindowEvent,
};

#[test]
fn display_frame_rounds_sides_down_to_even() {
    let y: Vec<u8> = (0..20).collect(); // stride 5, 3 rows used as 2
    let u = [100u8, 101, 102];
    let v = [200u8, 201, 202];
    let planes = I420Planes {
        y_data: &y,
        u_data: &u,
        v_data: &v,
        width: 3,
        height: 3,
        stride_y: 5,
        stride_u: 3,
        stride_v: 3,
    };
    let frame = extract_display_frame(&planes);
    assert_eq!((frame.width, frame.height), (2, 2));
    assert_eq!(frame.y, vec![0, 1, 5, 6]);
    assert_eq!(frame.u, vec![100]);
    assert_eq!(frame.v, vec![200]);
}

#[test]
fn display_frame_of_one_pixel_is_empty() {
    let planes = I420Planes {
        y_data: &[],
        u_data: &[],
        v_data: &[],
        width: 1,
        height: 1,
        stride_y: 0,
        stride_u: 0,
        stride_v: 0,
    };
    let frame = extract_display_frame(&planes);
    assert_eq!((frame.width, frame.height), (0, 0));
    assert!(frame.y.is_empty() && frame.u.is_empty() && frame.v.is_empty());
}

fn ids(cells: &[Cell<u32, ()>]) -> Vec<(String, u32)> {
    cells.iter().map(|c| (c.id.clone(), c.rx)).collect()
}

#[test]
fn tracks_are_added_replaced_and_removed() {
    let mut cells: Vec<Cell<u32, ()>> = Vec::new();
    handle_display_command(&mut cells, DisplayCommand::AddTrack { id: "a".to_owned(), rx: 1 });
    handle_display_command(&mut cells, DisplayCommand::AddTrack { id: "b".to_owned(), rx: 2 });
    handle_display_command(&mut cells, DisplayCommand::AddTrack { id: "a".to_owned(), rx: 3 });
    assert_eq!(ids(&cells), vec![("b".to_owned(), 2), ("a".to_owned(), 3)]);
    assert!(cells[1].latest.is_none() && cells[1].texture.is_none());
    handle_display_command(&mut cells, DisplayCommand::RemoveTrack { id: "b".to_owned() });
    handle_display_command(&mut cells, DisplayCommand::RemoveTrack { id: "zzz".to_owned() });
    assert_eq!(ids(&cells), vec![("a".to_owned(), 3)]);
}

#[test]
fn close_requests() {
    let escape = 27;
    assert!(!window_close_requested(&[], escape));
    assert!(!window_close_requested(&[WindowEvent::KeyDown { keycode: 1 }, WindowEvent::Other], escape));
    assert!(window_close_requested(&[WindowEvent::Other, WindowEvent::KeyDown { keycode: 27 }], escape));
    assert!(window_close_requested(&[WindowEvent::Quit], escape));
    assert!(window_close_requested(&[WindowEvent::WindowClose, WindowEvent::Other], escape));
    assert!(!window_close_requested(&[WindowEvent::KeyUp { keycode: 27 }], escape));
}
