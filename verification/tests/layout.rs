use fretboard::{Cells, Fretboard, GridLine, Marker, Range};

#[test]
fn grid_has_a_line_for_every_boundary() {
    let b = Fretboard::new(2, 3, 0);
    assert_eq!(
        b.grid(),
        vec![
            GridLine::Fret(0),
            GridLine::Fret(1),
            GridLine::Fret(2),
            GridLine::Fret(3),
            GridLine::String(0),
            GridLine::String(1),
            GridLine::String(2),
        ]
    );
}

#[test]
fn grid_counts_follow_the_counts() {
    let mut b = Fretboard::new(6, 6, 3);
    assert_eq!(b.grid().len(), 7 + 7);
    b.set_strings(255);
    b.set_frets(255);
    let g = b.grid();
    assert_eq!(g.len(), 512);
    assert_eq!(g[255], GridLine::Fret(255));
    assert_eq!(g[256], GridLine::String(0));
    assert_eq!(g[511], GridLine::String(255));
    b.set_strings(0);
    b.set_frets(0);
    assert_eq!(b.grid(), vec![GridLine::Fret(0), GridLine::String(0)]);
}

#[test]
fn span_over_three_frets_is_one_box_three_cells_wide() {
    let mut b = Fretboard::new(6, 6, 0);
    b.insert(Range::stretch(1, 3, 0));
    assert_eq!(
        b.fretted(),
        vec![Marker::Rectangle(Cells { column: 1, row: 0, columns: 3, rows: 1 })]
    );
}

#[test]
fn markers_come_in_the_order_of_the_selections() {
    let mut b = Fretboard::new(6, 6, 3);
    b.insert(Range::point(4, 2));
    b.insert(Range::muted(3, 0));
    b.insert(Range::barre(5, 1, 4));
    assert_eq!(
        b.fretted(),
        vec![
            Marker::Rectangle(Cells { column: 1, row: 2, columns: 1, rows: 1 }),
            Marker::Cross(Cells { column: 0, row: 0, columns: 1, rows: 1 }),
            Marker::Rectangle(Cells { column: 2, row: 1, columns: 1, rows: 4 }),
        ]
    );
}

#[test]
fn selection_before_the_starting_fret_lies_left_of_the_grid() {
    let b = Fretboard::new(6, 6, 10);
    assert_eq!(
        b.render_fretted(&Range::point(0, 1)),
        Marker::Rectangle(Cells { column: -10, row: 1, columns: 1, rows: 1 })
    );
    let wide = Range { fret_start: 0, fret_end: 255, string_start: 0, string_end: 255, muted: false };
    assert_eq!(
        Fretboard::new(6, 6, 255).render_fretted(&wide),
        Marker::Rectangle(Cells { column: -255, row: 0, columns: 256, rows: 256 })
    );
}

#[test]
fn turned_round_run_covers_no_cell() {
    let b = Fretboard::new(6, 6, 0);
    let odd = Range { fret_start: 3, fret_end: 1, string_start: 2, string_end: 2, muted: false };
    assert_eq!(
        b.render_fretted(&odd),
        Marker::Rectangle(Cells { column: 3, row: 2, columns: 0, rows: 1 })
    );
}

#[test]
fn cell_is_counted_from_the_starting_fret() {
    let b = Fretboard::new(6, 6, 3);
    assert_eq!(b.cell(0, 0), Some(Range::point(3, 0)));
    assert_eq!(b.cell(2, 5), Some(Range::point(5, 5)));
    assert_eq!(b.cell(200, 9), Some(Range::point(203, 9)));
    assert_eq!(b.cell(252, 0), Some(Range::point(255, 0)));
    assert_eq!(b.cell(253, 0), None);
}

#[test]
fn point_of_a_cell_is_drawn_over_that_cell() {
    let b = Fretboard::new(6, 6, 3);
    let p = b.cell(4, 2).unwrap();
    assert_eq!(
        b.render_fretted(&p),
        Marker::Rectangle(Cells { column: 4, row: 2, columns: 1, rows: 1 })
    );
}
