use wipedicks::progress::{bar_colors, bar_inner, gradient_for, render_bar, JIZZ_COLOR};

#[test]
fn bar_widths() {
    assert_eq!(bar_inner(16), 15);
    assert_eq!(bar_inner(4), 3);
    assert_eq!(bar_inner(3), 2);
    assert_eq!(bar_inner(0), 2);
}

#[test]
fn bars_keep_the_head_in_frame() {
    assert_eq!(render_bar(15, 0), b"8D~~~~~~~~~~~~~~".to_vec());
    assert_eq!(render_bar(15, 7), b"8=======D~~~~~~~".to_vec());
    assert_eq!(render_bar(15, 14), b"8==============D".to_vec());
    assert_eq!(render_bar(15, 99), b"8==============D".to_vec());
    for s in 0..20 {
        assert_eq!(render_bar(15, s).len(), 16);
    }
}

#[test]
fn bar_painting() {
    let bar = b"8==D~~";
    let plain = bar_colors(bar, false);
    assert_eq!(plain, vec![None, None, None, None, Some(JIZZ_COLOR), Some(JIZZ_COLOR)]);
    let gay = bar_colors(bar, true);
    assert_eq!(gay, vec![Some(196), Some(208), Some(226), Some(46), Some(231), Some(231)]);
    let long = render_bar(15, 14);
    let c = bar_colors(&long, true);
    assert_eq!(c[7], Some(196));
    assert_eq!(c[8], Some(208));
}

#[test]
fn gradient_steps() {
    assert_eq!(gradient_for(true, 3), 46);
    assert_eq!(gradient_for(false, 0), 226);
    assert_eq!(gradient_for(false, 1), 226);
    assert_eq!(gradient_for(false, 3), 227);
    assert_eq!(gradient_for(false, 5), 191);
    assert_eq!(gradient_for(false, 7), 154);
    assert_eq!(gradient_for(false, 9), 82);
}
