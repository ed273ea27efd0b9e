use immi::animations::Animation;
use immi::animations::EaseOut;
use immi::animations::Interpolation;
use immi::animations::Linear;
use immi::animations::Reversed;
use immi::animations::Translation;
use immi::animations::Zoom;
use immi::Alignment;
use immi::CursorPos;
use immi::DrawContext;
use immi::Frac;
use immi::Interaction;
use immi::Matrix;
use immi::SharedDrawContext;
use immi::UiState;

fn frac(n: i64, d: i64) -> Frac {
    Frac::new(n, d)
}

fn root(shared: &mut SharedDrawContext, cursor: Option<CursorPos>) -> DrawContext {
    shared.draw(frac(800, 1), frac(600, 1), cursor, false, false)
}

#[test]
fn multiply_is_associative() {
    let a = Matrix::translate(frac(1, 2), frac(-1, 3)).unwrap();
    let b = Matrix::scale_wh(frac(2, 1), frac(3, 4)).unwrap();
    let c = Matrix::translate(frac(-2, 5), frac(1, 7)).unwrap();
    let left = a.multiply(&b).unwrap().multiply(&c).unwrap();
    let right = a.multiply(&b.multiply(&c).unwrap()).unwrap();
    assert_eq!(left, right);
}

#[test]
fn multiply_by_inverse_is_identity() {
    let t = Matrix::translate(frac(1, 2), frac(1, 3))
        .unwrap()
        .multiply(&Matrix::scale_wh(frac(2, 1), frac(3, 4)).unwrap())
        .unwrap();
    let inv = t.invert().unwrap();
    let product = t.multiply(&inv).unwrap();
    assert!(product.eq_value(&Matrix::identity()));
}

#[test]
fn invert_of_singular_is_none() {
    let t = Matrix::scale(frac(0, 1));
    assert!(t.invert().is_none());
}

#[test]
fn rescale_by_one_changes_nothing() {
    let mut shared = immi::draw(UiState::default());
    let ctx = root(&mut shared, None);
    for alignment in [
        Alignment::center(),
        Alignment::top_left(),
        Alignment::bottom_right(),
        Alignment::left(),
    ] {
        let d = ctx.rescale(frac(1, 1), frac(1, 1), &alignment).unwrap();
        assert!(d.matrix().eq_value(&ctx.matrix()));
        assert!(d.width.eq_value(ctx.width));
        assert!(d.height.eq_value(ctx.height));
    }
}

#[test]
fn vertical_split_in_halves() {
    let mut shared = immi::draw(UiState::default());
    let ctx = root(&mut shared, None);
    let parts = ctx.vertical_split_weights(&vec![frac(1, 1), frac(1, 1)]).unwrap();
    assert_eq!(parts.len(), 2);
    assert!(parts[0].height.eq_value(frac(300, 1)));
    assert!(parts[1].height.eq_value(frac(300, 1)));
    assert!(parts[0].width.eq_value(frac(800, 1)));
    let top_expected = Matrix::translate(frac(0, 1), frac(1, 2))
        .unwrap()
        .multiply(&Matrix::scale_wh(frac(1, 1), frac(1, 2)).unwrap())
        .unwrap();
    let bottom_expected = Matrix::translate(frac(0, 1), frac(-1, 2))
        .unwrap()
        .multiply(&Matrix::scale_wh(frac(1, 1), frac(1, 2)).unwrap())
        .unwrap();
    assert!(parts[0].matrix().eq_value(&top_expected));
    assert!(parts[1].matrix().eq_value(&bottom_expected));
}

#[test]
fn split_weights_one_three() {
    let mut shared = immi::draw(UiState::default());
    let ctx = root(&mut shared, None);
    let parts = ctx.vertical_split_weights(&vec![frac(1, 1), frac(3, 1)]).unwrap();
    assert_eq!(parts.len(), 2);
    assert!(parts[0].height.eq_value(frac(150, 1)));
    assert!(parts[1].height.eq_value(frac(450, 1)));
    let horizontal = ctx.horizontal_split_weights(&vec![frac(1, 1), frac(3, 1)]).unwrap();
    assert!(horizontal[0].width.eq_value(frac(200, 1)));
    assert!(horizontal[1].width.eq_value(frac(600, 1)));
}

#[test]
fn equal_split_matches_weighted_split() {
    let mut shared = immi::draw(UiState::default());
    let ctx = root(&mut shared, None);
    let by_count = ctx.horizontal_split(4).unwrap();
    assert_eq!(by_count.len(), 4);
    for part in &by_count {
        assert!(part.width.eq_value(frac(200, 1)));
        assert!(part.height.eq_value(frac(600, 1)));
    }
}

#[test]
fn aspect_ratio_downscale_hits_target_and_shrinks() {
    let mut shared = immi::draw(UiState::default());
    let ctx = root(&mut shared, None);
    let d = ctx.enforce_aspect_ratio_downscale(frac(1, 1), &Alignment::center()).unwrap();
    assert!(d.width_per_height().unwrap().eq_value(frac(1, 1)));
    assert!(d.width.le(ctx.width));
    assert!(d.height.le(ctx.height));
    assert!(d.width.eq_value(frac(600, 1)));
    assert!(d.height.eq_value(frac(600, 1)));

    let tall = ctx.enforce_aspect_ratio_downscale(frac(2, 1), &Alignment::center()).unwrap();
    assert!(tall.width_per_height().unwrap().eq_value(frac(2, 1)));
    assert!(tall.width.le(ctx.width));
    assert!(tall.height.le(ctx.height));
}

#[test]
fn aspect_ratio_upscale_hits_target_and_grows() {
    let mut shared = immi::draw(UiState::default());
    let ctx = root(&mut shared, None);
    let d = ctx.enforce_aspect_ratio_upscale(frac(1, 1), &Alignment::center()).unwrap();
    assert!(d.width_per_height().unwrap().eq_value(frac(1, 1)));
    assert!(ctx.width.le(d.width));
    assert!(ctx.height.le(d.height));
    assert!(d.width.eq_value(frac(800, 1)));
    assert!(d.height.eq_value(frac(800, 1)));
}

#[test]
fn margin_shrinks_both_axes() {
    let mut shared = immi::draw(UiState::default());
    let ctx = root(&mut shared, None);
    let d = ctx.margin(frac(1, 10), frac(1, 10), frac(1, 10), frac(1, 10)).unwrap();
    assert!(d.width.eq_value(frac(648, 1)));
    assert!(d.height.eq_value(frac(486, 1)));
}

#[test]
fn uniform_margin_normalizes_by_aspect() {
    let mut shared = immi::draw(UiState::default());
    let ctx = root(&mut shared, None);
    let d = ctx.uniform_margin(frac(1, 10), frac(1, 10), frac(1, 10), frac(1, 10)).unwrap();
    // The horizontal margins are divided by the width-per-height of 4/3,
    // so the width keeps (1 - 3/40)^2 = 1369/1600 of 800.
    assert!(d.width.eq_value(frac(1369, 2)));
    assert!(d.height.eq_value(frac(486, 1)));
}

#[test]
fn width_per_height_of_flat_surface_is_none() {
    let mut shared = immi::draw(UiState::default());
    let ctx = shared.draw(frac(800, 1), frac(0, 1), None, false, false);
    assert!(ctx.width_per_height().is_none());
}

#[test]
fn linear_progress_endpoints() {
    let p = Linear.calculate(100, 100, 50);
    assert_eq!(p.num, 0);
    let p = Linear.calculate(150, 100, 50);
    assert!(p.eq_value(Frac::new(1, 1)));
    let p = Linear.calculate(200, 100, 50);
    assert!(p.eq_value(Frac::new(1, 1)));
    let p = Linear.calculate(125, 100, 50);
    assert!(p.eq_value(Frac::new(1, 2)));
    let p = Linear.calculate(50, 100, 50);
    assert_eq!(p.num, 0);
}

#[test]
fn ease_out_starts_at_zero_and_stays_below_one() {
    let e = EaseOut::default();
    let p = e.calculate(100, 100, 50);
    assert_eq!(p.num, 0);
    let p = e.calculate(90, 100, 50);
    assert_eq!(p.num, 0);
    // Far past the duration the curve is very close to, but below, one.
    let p = e.calculate(1_000_000, 100, 50);
    assert!(p.num < p.den);
    assert!(p.num * 1000 > p.den * 999);
    // The curve grows with time.
    let early = e.calculate(110, 100, 50);
    let late = e.calculate(140, 100, 50);
    assert!(early.num * late.den < late.num * early.den);
}

#[test]
fn reversed_complements_linear() {
    let r = Linear.reverse();
    let p = r.calculate(125, 100, 50);
    assert!(p.eq_value(Frac::new(1, 2)));
    let p = r.calculate(100, 100, 50);
    assert!(p.eq_value(Frac::new(1, 1)));
    let p = r.calculate(200, 100, 50);
    assert!(p.eq_value(Frac::new(0, 1)));
    let direct = Reversed::new(Linear);
    assert!(direct.calculate(125, 100, 50).eq_value(Frac::new(1, 2)));
}

#[test]
fn translation_animates_to_rest() {
    let anim = Translation::new([frac(1, 1), frac(0, 1)]);
    let mut shared = immi::draw(UiState::default());
    let ctx = root(&mut shared, None);
    // At the end of the animation the transform is the identity again.
    let done = ctx.animate_at(&anim, &Linear, 150, 100, 50).unwrap();
    assert!(done.matrix().eq_value(&ctx.matrix()));
    // At the start the element sits at its initial offset.
    let start = ctx.animate_at(&anim, &Linear, 100, 100, 50).unwrap();
    let expected = Matrix::translate(frac(1, 1), frac(0, 1)).unwrap();
    assert!(start.matrix().eq_value(&expected));
}

#[test]
fn zoom_animates_to_normal_size() {
    let anim = Zoom::new(frac(2, 1));
    let mut shared = immi::draw(UiState::default());
    let ctx = root(&mut shared, None);
    let start = ctx.animate_at(&anim, &Linear, 100, 100, 50).unwrap();
    assert!(start.matrix().eq_value(&Matrix::scale(frac(2, 1))));
    let done = ctx.animate_at(&anim, &Linear, 150, 100, 50).unwrap();
    assert!(done.matrix().eq_value(&ctx.matrix()));
}

#[test]
fn animate_against_the_clock_runs() {
    let anim = Zoom::new(frac(2, 1));
    let mut shared = immi::draw(UiState::default());
    let ctx = root(&mut shared, None);
    // Whatever the clock says, the step succeeds on a small transform.
    let stepped = ctx.animate(&anim, &Linear, 0, 50);
    assert!(stepped.is_some());
}

#[test]
fn cursor_at_center_hovers() {
    let cursor = Some(CursorPos { x: frac(0, 1), y: frac(0, 1) });
    let mut shared = immi::draw(UiState::default());
    let ctx = root(&mut shared, cursor);
    assert!(ctx.is_cursor_hovering());
    // A node covering the top-right quarter contains the cursor placed at
    // its own transformed center.
    let quarter_cursor = Some(CursorPos { x: frac(1, 2), y: frac(1, 2) });
    let ctx2 = root(&mut shared, quarter_cursor);
    let sub2 = ctx2.rescale(frac(1, 2), frac(1, 2), &Alignment::top_right()).unwrap();
    assert!(sub2.is_cursor_hovering());
}

#[test]
fn cursor_far_outside_does_not_hover() {
    let cursor = Some(CursorPos { x: frac(50, 1), y: frac(0, 1) });
    let mut shared = immi::draw(UiState::default());
    let ctx = root(&mut shared, cursor);
    assert!(!ctx.is_cursor_hovering());
    let no_cursor = root(&mut shared, None);
    assert!(!no_cursor.is_cursor_hovering());
}

#[test]
fn hover_coordinates_map_into_local_space() {
    let cursor = Some(CursorPos { x: frac(1, 2), y: frac(1, 4) });
    let mut shared = immi::draw(UiState::default());
    let ctx = root(&mut shared, cursor);
    let local = ctx.cursor_hover_coordinates().unwrap();
    assert!(local.x.eq_value(frac(1, 2)));
    assert!(local.y.eq_value(frac(1, 4)));
    // In a node half the size anchored at the center, coordinates double.
    let sub = ctx.rescale(frac(1, 2), frac(1, 2), &Alignment::center()).unwrap();
    let local = sub.cursor_hover_coordinates().unwrap();
    assert!(local.x.eq_value(frac(1, 1)));
    assert!(local.y.eq_value(frac(1, 2)));
}

#[test]
fn hover_coordinates_outside_are_none() {
    let cursor = Some(CursorPos { x: frac(3, 4), y: frac(0, 1) });
    let mut shared = immi::draw(UiState::default());
    let ctx = root(&mut shared, cursor);
    let sub = ctx.rescale(frac(1, 2), frac(1, 2), &Alignment::center()).unwrap();
    // The local x would be 3/2, outside the unit square.
    assert!(sub.cursor_hover_coordinates().is_none());
    let no_cursor = root(&mut shared, None);
    assert!(no_cursor.cursor_hover_coordinates().is_none());
}

#[test]
fn hover_flag_reaches_ancestors_not_siblings() {
    let mut shared = immi::draw(UiState::default());
    let tree_a = root(&mut shared, None);
    let tree_b = root(&mut shared, None);
    let child = tree_a.rescale(frac(1, 2), frac(1, 2), &Alignment::center()).unwrap();
    let grandchild = child.margin(frac(1, 10), frac(1, 10), frac(1, 10), frac(1, 10)).unwrap();
    assert!(!tree_a.cursor_hovered_widget(&shared));
    assert!(!shared.cursor_hovered_widget());
    grandchild.set_cursor_hovered_widget(&mut shared);
    assert!(grandchild.cursor_hovered_widget(&shared));
    assert!(child.cursor_hovered_widget(&shared));
    assert!(tree_a.cursor_hovered_widget(&shared));
    assert!(shared.cursor_hovered_widget());
    // The sibling surface tree never called it and stays untouched.
    assert!(!tree_b.cursor_hovered_widget(&shared));
}

#[test]
fn widget_ids_are_unique_and_increasing() {
    let mut shared = immi::draw(UiState::default());
    let ctx = root(&mut shared, None);
    let a = ctx.reserve_widget_id(&mut shared);
    let b = ctx.reserve_widget_id(&mut shared);
    let c = ctx.reserve_widget_id(&mut shared);
    assert_eq!(a.id, 1);
    assert_eq!(b.id, 2);
    assert_eq!(c.id, 3);
}

#[test]
fn active_widget_register_round_trips() {
    let mut shared = immi::draw(UiState::default());
    let ctx = root(&mut shared, None);
    assert!(ctx.get_active_widget(&shared).is_none());
    let id = ctx.reserve_widget_id(&mut shared);
    ctx.write_active_widget(&mut shared, id);
    assert_eq!(ctx.get_active_widget(&shared), Some(id));
    ctx.clear_active_widget(&mut shared);
    assert!(ctx.get_active_widget(&shared).is_none());
    let state = shared.into_ui_state();
    assert!(state.active_widget.is_none());
}

#[test]
fn cursor_flags_are_copied_down_the_tree() {
    let mut shared = immi::draw(UiState::default());
    let ctx = shared.draw(frac(800, 1), frac(600, 1), None, true, false);
    assert!(ctx.cursor_was_pressed());
    assert!(!ctx.cursor_was_released());
    let sub = ctx.vertical_rescale(frac(1, 3), &immi::VerticalAlignment::Top).unwrap();
    assert!(sub.cursor_was_pressed());
    assert!(!sub.cursor_was_released());
    assert!(sub.height.eq_value(frac(200, 1)));
    assert!(sub.width.eq_value(frac(800, 1)));
}

#[test]
fn split_with_zero_total_weight_fails() {
    let mut shared = immi::draw(UiState::default());
    let ctx = root(&mut shared, None);
    assert!(ctx.vertical_split_weights(&vec![frac(0, 1), frac(0, 1)]).is_none());
}

#[test]
fn overflow_is_reported_not_silently_wrong() {
    let big = Frac::new(1 << 59, 1);
    assert!(big.mul(big).is_none());
    let fine = Frac::new(1 << 20, 1);
    assert!(fine.mul(fine).is_some());
}

#[test]
fn interaction_clicked() {
    assert!(Interaction::Clicked.clicked());
    assert!(!Interaction::NotClicked.clicked());
}

#[test]
fn alignment_shortcuts() {
    type H = immi::HorizontalAlignment;
    type V = immi::VerticalAlignment;
    assert_eq!(Alignment::center(), Alignment { horizontal: H::Center, vertical: V::Center });
    assert_eq!(Alignment::top(), Alignment { horizontal: H::Center, vertical: V::Top });
    assert_eq!(Alignment::bottom(), Alignment { horizontal: H::Center, vertical: V::Bottom });
    assert_eq!(Alignment::left(), Alignment { horizontal: H::Left, vertical: V::Center });
    assert_eq!(Alignment::right(), Alignment { horizontal: H::Right, vertical: V::Center });
    assert_eq!(Alignment::top_left(), Alignment { horizontal: H::Left, vertical: V::Top });
    assert_eq!(Alignment::top_right(), Alignment { horizontal: H::Right, vertical: V::Top });
    assert_eq!(Alignment::bottom_left(), Alignment { horizontal: H::Left, vertical: V::Bottom });
    assert_eq!(
        Alignment::bottom_right(),
        Alignment { horizontal: H::Right, vertical: V::Bottom }
    );
}
