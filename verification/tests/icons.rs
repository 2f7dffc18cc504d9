use traybridge::icon::{
    from_argb32_network_order, reorder_samples, to_argb32_network_order, IconError,
};

fn red_argb(pixels: usize) -> Vec<u8> {
    let mut v = Vec::new();
    for _ in 0..pixels {
        // A=255, R=255, G=0, B=0 in remote order
        v.push(255);
        v.push(255);
        v.push(0);
        v.push(0);
    }
    v
}

#[test]
fn conversion_preserves_geometry() {
    let argb = red_argb(16 * 16);
    let icon = from_argb32_network_order(16, 16, &argb).unwrap();
    assert_eq!(icon.width, 16);
    assert_eq!(icon.height, 16);
    assert_eq!(icon.bgra.len(), 4 * 16 * 16);
}

#[test]
fn opaque_red_pixmap_reorders_to_native_bytes() {
    let argb = red_argb(16 * 16);
    let icon = from_argb32_network_order(16, 16, &argb).unwrap();
    for p in 0..(16 * 16) {
        let s = &icon.bgra[4 * p..4 * p + 4];
        // native order: B=0, G=0, R=255, A=255
        assert_eq!(s, &[0, 0, 255, 255]);
    }
}

#[test]
fn reorder_is_its_own_inverse() {
    let bytes: Vec<u8> = vec![1, 2, 3, 4, 5, 6, 7, 8];
    let once = reorder_samples(&bytes).unwrap();
    assert_eq!(once, vec![4, 3, 2, 1, 8, 7, 6, 5]);
    let twice = reorder_samples(&once).unwrap();
    assert_eq!(twice, bytes);
}

#[test]
fn conversion_round_trip() {
    let argb = vec![10, 20, 30, 40, 50, 60, 70, 80];
    let icon = from_argb32_network_order(2, 1, &argb).unwrap();
    assert_eq!(to_argb32_network_order(&icon), argb);
}

#[test]
fn bad_geometry_is_rejected() {
    let argb = red_argb(4);
    assert_eq!(
        from_argb32_network_order(3, 1, &argb).unwrap_err(),
        IconError::BadGeometry
    );
    assert_eq!(
        from_argb32_network_order(2, 2, &red_argb(3)).unwrap_err(),
        IconError::BadGeometry
    );
    let odd = vec![1, 2, 3];
    assert_eq!(reorder_samples(&odd).unwrap_err(), IconError::BadGeometry);
}
