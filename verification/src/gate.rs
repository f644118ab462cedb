//! Validation gates emission: a template whose report has no errors is
//! written to MJML without refusal, in preview and in export.
use vstd::prelude::*;

use crate::emit::{
    carousel_image_out, mjml_of, fold_steps, given, rewritten, with_bg_url, Attr, EmitMode, Out,
};
use crate::model::{
    BodyNode, ColumnChild, HeroMode, MjCarouselImage, MjColumn, MjGroup, MjHero, MjSection,
    MjWrapper, SectionChild, Template,
};
use crate::json_ld::{findings_of, json_ld_findings, json_reading, payload_of, JsonShape};
use crate::text::{contains_ci, decimal, lemma_trim_idempotent, lower, starts_with, trim};
use crate::validate::{
    border_sides_checked, carousel_image_audit, color_checked, column_audit, err, fold_audit,
    group_audit, image_src_checked, ltr_rtl, one_of_checked, optional_image, padding_checked,
    audit_of, body_audit, body_step, css_audit, css_url_step, css_urls_from, fonts_audit,
    head_checks, hero_audit, initial_audit, nonempty_checked, report_of, unused_font_step, repeat_values, required_image, section_audit, section_child_audit,
    text_or_empty, wrapper_children_audit, wrapper_head_audit, top_middle_bottom, unit_checked, Audit, Ctx,
};

verus! {

/// `b` has no more errors than `a` had.
pub open spec fn quiet(a: Audit, b: Audit) -> bool {
    b.errors.len() == a.errors.len()
}

/// A walk context that belongs to `t` and matches the emit mode.
pub open spec fn ctx_for(ctx: Ctx, t: Template, mode: EmitMode) -> bool {
    &&& ctx.export == (mode is Export)
    &&& ctx.base_url == t.base_url@
}

/// A step never removes errors.
pub open spec fn growing<A>(f: spec_fn(Audit, A) -> Audit) -> bool {
    forall|a: Audit, x: A| #[trigger] f(a, x).errors.len() >= a.errors.len()
}

/// Folding growing steps never removes errors, and when the fold adds none,
/// no step adds any.
pub proof fn lemma_fold_quiet<A>(a: Audit, xs: Seq<A>, f: spec_fn(Audit, A) -> Audit)
    requires
        growing(f),
    ensures
        fold_audit(a, xs, f).errors.len() >= a.errors.len(),
        quiet(a, fold_audit(a, xs, f)) ==> forall|i: int|
            0 <= i < xs.len() ==> quiet(
                fold_audit(a, xs.take(i), f),
                #[trigger] f(fold_audit(a, xs.take(i), f), xs[i]),
            ),
    decreases xs.len(),
{
    if xs.len() > 0 {
        let init = xs.drop_last();
        lemma_fold_quiet(a, init, f);
        let mid = fold_audit(a, init, f);
        assert(f(mid, xs.last()).errors.len() >= mid.errors.len());
        if quiet(a, fold_audit(a, xs, f)) {
            assert forall|i: int| 0 <= i < xs.len() implies quiet(
                fold_audit(a, xs.take(i), f),
                #[trigger] f(fold_audit(a, xs.take(i), f), xs[i]),
            ) by {
                if i < xs.len() - 1 {
                    assert(xs.take(i) =~= init.take(i));
                    assert(xs[i] == init[i]);
                } else {
                    assert(xs.take(i) =~= init);
                }
            }
        }
    }
}

proof fn lemma_loopback_is_http(l: Seq<char>)
    requires
        starts_with(l, "http://127.0.0.1:"@) || starts_with(l, "http://localhost:"@),
    ensures
        starts_with(l, "http://"@),
{
    reveal_strlit("http://127.0.0.1:");
    reveal_strlit("http://localhost:");
    reveal_strlit("http://");
    if starts_with(l, "http://127.0.0.1:"@) {
        assert(l.take(7) =~= l.take(17).take(7));
        assert("http://"@ =~= "http://127.0.0.1:"@.take(7));
    } else {
        assert(l.take(7) =~= l.take(17).take(7));
        assert("http://"@ =~= "http://localhost:"@.take(7));
    }
}

/// A set image source that its check lets through is rewritten, not refused.
pub proof fn lemma_image_ok(a: Audit, ctx: Ctx, field: Seq<char>, src: Seq<char>, t: Template, mode: EmitMode)
    requires
        ctx_for(ctx, t, mode),
        trim(src).len() > 0,
        quiet(a, image_src_checked(a, ctx, field, src)),
    ensures
        rewritten(src, t.base_url@, mode) is Ok,
{
    let s = trim(src);
    let l = lower(s);
    if starts_with(l, "http://127.0.0.1:"@) || starts_with(l, "http://localhost:"@) {
        lemma_loopback_is_http(l);
    }
    if !starts_with(l, "data:"@) && !starts_with(l, "cid:"@) && !starts_with(l, "https://"@)
        && !starts_with(l, "http://"@) && mode is Export {
        reveal_strlit("https://");
        assert(starts_with(trim(ctx.base_url), "https://"@));
        assert(trim(t.base_url@).len() > 0);
    }
}

/// A required image that passes its check is rewritten.
pub proof fn lemma_required_image_ok(a: Audit, ctx: Ctx, field: Seq<char>, src: Seq<char>, t: Template, mode: EmitMode)
    requires
        ctx_for(ctx, t, mode),
        quiet(a, required_image(a, ctx, field, src)),
    ensures
        rewritten(src, t.base_url@, mode) is Ok,
{
    lemma_image_ok(a, ctx, field, src, t, mode);
}

/// An optional image that passes its check is rewritten when it is set.
pub proof fn lemma_optional_image_ok(a: Audit, ctx: Ctx, field: Seq<char>, src: Seq<char>, t: Template, mode: EmitMode)
    requires
        ctx_for(ctx, t, mode),
        quiet(a, optional_image(a, ctx, field, src)),
    ensures
        trim(src).len() > 0 ==> rewritten(src, t.base_url@, mode) is Ok,
{
    if trim(src).len() > 0 {
        lemma_image_ok(a, ctx, field, src, t, mode);
    }
}

/// Rewriting reads only the trimmed source.
pub proof fn lemma_rewritten_trim(src: Seq<char>, base: Seq<char>, mode: EmitMode)
    ensures
        rewritten(trim(src), base, mode) == rewritten(src, base, mode),
{
    lemma_trim_idempotent(src);
}

/// A background image that passes its check is written.
pub proof fn lemma_bg_ok(a: Audit, ctx: Ctx, field: Seq<char>, url: Option<String>, t: Template, mode: EmitMode, attrs: Seq<Attr>)
    requires
        ctx_for(ctx, t, mode),
        quiet(a, optional_image(a, ctx, field, text_or_empty(url))),
    ensures
        with_bg_url(attrs, url, t, mode) is Ok,
{
    lemma_optional_image_ok(a, ctx, field, text_or_empty(url), t, mode);
    if let Some(s) = url {
        lemma_rewritten_trim(s@, t.base_url@, mode);
    }
}

/// Steps that succeed from any output make a fold that succeeds.
pub proof fn lemma_fold_steps_ok<A>(o: Out, xs: Seq<A>, f: spec_fn(Out, A) -> Result<Out, Seq<char>>)
    requires
        forall|o2: Out, i: int| 0 <= i < xs.len() ==> (#[trigger] f(o2, xs[i])) is Ok,
    ensures
        fold_steps(o, xs, f) is Ok,
    decreases xs.len(),
{
    if xs.len() > 0 {
        assert(f(o, xs[0]) is Ok);
        let o2 = f(o, xs[0])->Ok_0;
        let rest = xs.drop_first();
        assert forall|o3: Out, i: int| 0 <= i < rest.len() implies (#[trigger] f(o3, rest[i])) is Ok by {
            assert(rest[i] == xs[i + 1]);
            assert(f(o3, xs[i + 1]) is Ok);
        }
        lemma_fold_steps_ok(o2, rest, f);
    }
}

proof fn lemma_carousel_image_ok(a: Audit, ctx: Ctx, img: MjCarouselImage, t: Template, mode: EmitMode)
    requires
        ctx_for(ctx, t, mode),
        quiet(a, carousel_image_audit(a, ctx, img)),
    ensures
        forall|o: Out| #[trigger] carousel_image_out(o, t, mode, img) is Ok,
{
    let a1 = required_image(a, ctx, "mj-carousel-image.src"@, img.src@);
    lemma_required_image_ok(a, ctx, "mj-carousel-image.src"@, img.src@, t, mode);
    let a2 = if trim(img.alt@).len() == 0 {
        err(a1, "mj-carousel-image.alt is empty"@)
    } else {
        a1
    };
    lemma_optional_image_ok(
        a2,
        ctx,
        "mj-carousel-image.thumbnails_src"@,
        text_or_empty(img.thumbnails_src),
        t,
        mode,
    );
    if let Some(x) = img.thumbnails_src {
        lemma_rewritten_trim(x@, t.base_url@, mode);
    }
}

/// The steps of the content walks never remove errors.
pub proof fn lemma_item_steps_grow(ctx: Ctx)
    ensures
        growing(crate::validate::social_element_step()),
        growing(crate::validate::navbar_link_step()),
        growing(crate::validate::accordion_element_step()),
        growing(crate::validate::carousel_image_step(ctx)),
{
}

/// A content component's check never removes errors.
#[verifier::spinoff_prover]
#[verifier::rlimit(40)]
pub proof fn lemma_child_grows(a: Audit, ctx: Ctx, c: ColumnChild)
    ensures
        crate::validate::child_audit(a, ctx, c).errors.len() >= a.errors.len(),
{
    reveal(crate::validate::child_audit);
    lemma_item_steps_grow(ctx);
    match c {
        ColumnChild::MjSocial(n) => lemma_fold_grows(n.elements@, crate::validate::social_element_step()),
        ColumnChild::MjNavbar(n) => lemma_fold_grows(n.links@, crate::validate::navbar_link_step()),
        ColumnChild::MjAccordion(n) => lemma_fold_grows(
            n.elements@,
            crate::validate::accordion_element_step(),
        ),
        ColumnChild::MjCarousel(n) => lemma_fold_grows(n.images@, crate::validate::carousel_image_step(ctx)),
        _ => {},
    }
}

/// Folding growing steps never removes errors, from any start.
pub proof fn lemma_fold_grows<A>(xs: Seq<A>, f: spec_fn(Audit, A) -> Audit)
    requires
        growing(f),
    ensures
        forall|x: Audit| #[trigger] fold_audit(x, xs, f).errors.len() >= x.errors.len(),
{
    assert forall|x: Audit| #[trigger] fold_audit(x, xs, f).errors.len() >= x.errors.len() by {
        lemma_fold_quiet(x, xs, f);
    }
}

/// A content component that passes its checks is written without refusal.
#[verifier::spinoff_prover]
#[verifier::rlimit(40)]
pub proof fn lemma_child_ok(a: Audit, ctx: Ctx, c: ColumnChild, t: Template, mode: EmitMode)
    requires
        ctx_for(ctx, t, mode),
        quiet(a, crate::validate::child_audit(a, ctx, c)),
    ensures
        forall|o: Out| #[trigger] crate::emit::child_out(o, t, mode, c) is Ok,
{
    reveal(crate::validate::child_audit);
    reveal(crate::emit::child_out);
    lemma_item_steps_grow(ctx);
    match c {
        ColumnChild::MjImage(img) => {
            lemma_required_image_ok(a, ctx, "mj-image.src"@, img.src@, t, mode);
        },
        ColumnChild::MjSocial(n) => {
            assert forall|o: Out| #[trigger] crate::emit::child_out(o, t, mode, c) is Ok by {
                lemma_fold_steps_ok(
                    crate::emit::op_open_attrs(o, "mj-social"@, crate::emit::social_attrs(n)),
                    n.elements@,
                    crate::emit::social_element_step(),
                );
            }
        },
        ColumnChild::MjNavbar(n) => {
            assert forall|o: Out| #[trigger] crate::emit::child_out(o, t, mode, c) is Ok by {
                lemma_fold_steps_ok(
                    crate::emit::op_open_attrs(o, "mj-navbar"@, crate::emit::navbar_attrs(n)),
                    n.links@,
                    crate::emit::navbar_link_step(),
                );
            }
        },
        ColumnChild::MjAccordion(n) => {
            assert forall|o: Out| #[trigger] crate::emit::child_out(o, t, mode, c) is Ok by {
                lemma_fold_steps_ok(
                    crate::emit::op_open_attrs(o, "mj-accordion"@, crate::emit::accordion_attrs(n)),
                    n.elements@,
                    crate::emit::accordion_element_step(),
                );
            }
        },
        ColumnChild::MjCarousel(car) => {
            let a1 = crate::validate::padding_checked(a, "mj-carousel.padding"@, car.padding);
            let a2 = crate::validate::unit_checked(a1, "mj-carousel.border_radius"@, car.border_radius);
            let a3 = crate::validate::unit_checked(a2, "mj-carousel.tb_border_radius"@, car.tb_border_radius);
            let b0 = if car.images@.len() == 0 {
                crate::validate::warn(a3, "mj-carousel has no mj-carousel-image children"@)
            } else {
                a3
            };
            let step = crate::validate::carousel_image_step(ctx);
            assert(crate::validate::child_audit(a, ctx, c) == fold_audit(b0, car.images@, step));
            lemma_fold_quiet(b0, car.images@, step);
            assert forall|o2: Out, i: int| 0 <= i < car.images@.len() implies (
            #[trigger] crate::emit::carousel_image_step(t, mode)(o2, car.images@[i])) is Ok by {
                let bi = fold_audit(b0, car.images@.take(i), step);
                assert(quiet(bi, step(bi, car.images@[i])));
                lemma_carousel_image_ok(bi, ctx, car.images@[i], t, mode);
                assert(carousel_image_out(o2, t, mode, car.images@[i]) is Ok);
            }
            assert forall|o: Out| #[trigger] crate::emit::child_out(o, t, mode, c) is Ok by {
                lemma_fold_steps_ok(
                    crate::emit::op_open_attrs(o, "mj-carousel"@, crate::emit::carousel_attrs(car)),
                    car.images@,
                    crate::emit::carousel_image_step(t, mode),
                );
            }
        },
        _ => {},
    }
}

/// The content step never removes errors.
pub proof fn lemma_child_step_grows(ctx: Ctx)
    ensures
        growing(crate::validate::child_step(ctx)),
{
    assert forall|a: Audit, x: ColumnChild| #[trigger] crate::validate::child_step(ctx)(a, x).errors.len()
        >= a.errors.len() by {
        lemma_child_grows(a, ctx, x);
    }
}

/// Each content step that adds no error is written without refusal.
proof fn lemma_children_ok(b0: Audit, ctx: Ctx, cs: Seq<ColumnChild>, t: Template, mode: EmitMode)
    requires
        ctx_for(ctx, t, mode),
        quiet(b0, fold_audit(b0, cs, crate::validate::child_step(ctx))),
    ensures
        forall|o: Out| #[trigger] fold_steps(o, cs, crate::emit::child_step(t, mode)) is Ok,
{
    let step = crate::validate::child_step(ctx);
    lemma_child_step_grows(ctx);
    lemma_fold_quiet(b0, cs, step);
    assert forall|o2: Out, i: int| 0 <= i < cs.len() implies (#[trigger] crate::emit::child_step(t, mode)(
        o2,
        cs[i],
    )) is Ok by {
        let bi = fold_audit(b0, cs.take(i), step);
        assert(quiet(bi, step(bi, cs[i])));
        lemma_child_ok(bi, ctx, cs[i], t, mode);
        assert(crate::emit::child_out(o2, t, mode, cs[i]) is Ok);
    }
    assert forall|o: Out| #[trigger] fold_steps(o, cs, crate::emit::child_step(t, mode)) is Ok by {
        lemma_fold_steps_ok(o, cs, crate::emit::child_step(t, mode));
    }
}

/// The checks of a column before its content.
pub open spec fn column_head(a: Audit, col: MjColumn) -> Audit {
    let a = color_checked(a, "mj-column.background_color"@, text_or_empty(col.background_color));
    let a = color_checked(a, "mj-column.inner_background_color"@, text_or_empty(col.inner_background_color));
    let a = padding_checked(a, "mj-column.padding"@, col.padding);
    let a = border_sides_checked(a, "mj-column.border_sides"@, col.border_sides);
    let a = unit_checked(a, "mj-column.border_radius"@, col.border_radius);
    let a = border_sides_checked(a, "mj-column.inner_border_sides"@, col.inner_border_sides);
    let a = one_of_checked(a, "mj-column.vertical_align"@, text_or_empty(col.vertical_align), top_middle_bottom());
    unit_checked(a, "mj-column.inner_border_radius"@, col.inner_border_radius)
}

pub proof fn lemma_column_grows(a: Audit, ctx: Ctx, col: MjColumn)
    ensures
        column_audit(a, ctx, col).errors.len() >= a.errors.len(),
{
    lemma_child_step_grows(ctx);
    lemma_fold_quiet(column_head(a, col), col.components@, crate::validate::child_step(ctx));
    assert(column_audit(a, ctx, col) == fold_audit(column_head(a, col), col.components@, crate::validate::child_step(ctx)));
}

/// A column that passes its checks is written without refusal.
pub proof fn lemma_column_ok(a: Audit, ctx: Ctx, col: MjColumn, t: Template, mode: EmitMode)
    requires
        ctx_for(ctx, t, mode),
        quiet(a, column_audit(a, ctx, col)),
    ensures
        forall|o: Out| #[trigger] crate::emit::column_out(o, t, mode, col) is Ok,
{
    let b0 = column_head(a, col);
    lemma_child_step_grows(ctx);
    lemma_fold_quiet(b0, col.components@, crate::validate::child_step(ctx));
    assert(column_audit(a, ctx, col) == fold_audit(b0, col.components@, crate::validate::child_step(ctx)));
    lemma_children_ok(b0, ctx, col.components@, t, mode);
    assert forall|o: Out| #[trigger] crate::emit::column_out(o, t, mode, col) is Ok by {
        let o1 = crate::emit::op_open_attrs(o, "mj-column"@, crate::emit::column_attrs(col));
        assert(fold_steps(o1, col.components@, crate::emit::child_step(t, mode)) is Ok);
    }
}

pub proof fn lemma_column_step_grows(ctx: Ctx)
    ensures
        growing(crate::validate::column_step(ctx)),
{
    assert forall|a: Audit, x: MjColumn| #[trigger] crate::validate::column_step(ctx)(a, x).errors.len()
        >= a.errors.len() by {
        lemma_column_grows(a, ctx, x);
    }
}

/// The checks of a group before its columns.
pub open spec fn group_head(a: Audit, g: MjGroup) -> Audit {
    let a = color_checked(a, "mj-group.background_color"@, text_or_empty(g.background_color));
    let a = one_of_checked(a, "mj-group.direction"@, text_or_empty(g.direction), ltr_rtl());
    let a = one_of_checked(a, "mj-group.vertical_align"@, text_or_empty(g.vertical_align), top_middle_bottom());
    if g.children@.len() == 0 {
        err(a, "mj-group has no columns"@)
    } else {
        a
    }
}

pub proof fn lemma_group_grows(a: Audit, ctx: Ctx, g: MjGroup)
    ensures
        group_audit(a, ctx, g).errors.len() >= a.errors.len(),
{
    lemma_column_step_grows(ctx);
    lemma_fold_quiet(group_head(a, g), g.children@, crate::validate::column_step(ctx));
    assert(group_audit(a, ctx, g) == fold_audit(group_head(a, g), g.children@, crate::validate::column_step(ctx)));
}

/// A group that passes its checks is written without refusal.
pub proof fn lemma_group_ok(a: Audit, ctx: Ctx, g: MjGroup, t: Template, mode: EmitMode)
    requires
        ctx_for(ctx, t, mode),
        quiet(a, group_audit(a, ctx, g)),
    ensures
        forall|o: Out| #[trigger] crate::emit::group_out(o, t, mode, g) is Ok,
{
    let b0 = group_head(a, g);
    let step = crate::validate::column_step(ctx);
    lemma_column_step_grows(ctx);
    lemma_fold_quiet(b0, g.children@, step);
    assert(group_audit(a, ctx, g) == fold_audit(b0, g.children@, step));
    assert forall|o2: Out, i: int| 0 <= i < g.children@.len() implies (#[trigger] crate::emit::column_step(
        t,
        mode,
    )(o2, g.children@[i])) is Ok by {
        let bi = fold_audit(b0, g.children@.take(i), step);
        assert(quiet(bi, step(bi, g.children@[i])));
        lemma_column_ok(bi, ctx, g.children@[i], t, mode);
        assert(crate::emit::column_out(o2, t, mode, g.children@[i]) is Ok);
    }
    assert forall|o: Out| #[trigger] crate::emit::group_out(o, t, mode, g) is Ok by {
        lemma_fold_steps_ok(
            crate::emit::op_open_attrs(o, "mj-group"@, crate::emit::group_attrs(g)),
            g.children@,
            crate::emit::column_step(t, mode),
        );
    }
}

pub proof fn lemma_section_child_grows(a: Audit, ctx: Ctx, c: SectionChild)
    ensures
        section_child_audit(a, ctx, c).errors.len() >= a.errors.len(),
{
    reveal(section_child_audit);
    match c {
        SectionChild::MjColumn(col) => lemma_column_grows(a, ctx, col),
        SectionChild::MjGroup(g) => lemma_group_grows(a, ctx, g),
    }
}

pub proof fn lemma_section_child_ok(a: Audit, ctx: Ctx, c: SectionChild, t: Template, mode: EmitMode)
    requires
        ctx_for(ctx, t, mode),
        quiet(a, section_child_audit(a, ctx, c)),
    ensures
        forall|o: Out| #[trigger] crate::emit::section_child_out(o, t, mode, c) is Ok,
{
    reveal(section_child_audit);
    reveal(crate::emit::section_child_out);
    match c {
        SectionChild::MjColumn(col) => lemma_column_ok(a, ctx, col, t, mode),
        SectionChild::MjGroup(g) => lemma_group_ok(a, ctx, g, t, mode),
    }
}

pub proof fn lemma_section_child_step_grows(ctx: Ctx)
    ensures
        growing(crate::validate::section_child_step(ctx)),
{
    assert forall|a: Audit, x: SectionChild| #[trigger] crate::validate::section_child_step(ctx)(a, x).errors.len()
        >= a.errors.len() by {
        lemma_section_child_grows(a, ctx, x);
    }
}

/// The checks of a section before its background image.
pub open spec fn section_head(a: Audit, s: MjSection) -> Audit {
    let a = color_checked(a, "mj-section.background_color"@, text_or_empty(s.background_color));
    let a = padding_checked(a, "mj-section.padding"@, s.padding);
    let a = border_sides_checked(a, "mj-section.border_sides"@, s.border_sides);
    let a = unit_checked(a, "mj-section.border_radius"@, s.border_radius);
    let a = unit_checked(a, "mj-section.gutter"@, s.gutter);
    let a = one_of_checked(a, "mj-section.direction"@, text_or_empty(s.direction), ltr_rtl());
    one_of_checked(a, "mj-section.background_repeat"@, text_or_empty(s.background_repeat), repeat_values())
}

/// The checks of a section before its children.
pub open spec fn section_pre(a: Audit, ctx: Ctx, s: MjSection) -> Audit {
    let a = optional_image(section_head(a, s), ctx, "mj-section.background_url"@, text_or_empty(s.background_url));
    if s.children@.len() == 0 {
        err(a, "mj-section has no children"@)
    } else {
        a
    }
}

pub proof fn lemma_section_grows(a: Audit, ctx: Ctx, s: MjSection)
    ensures
        section_audit(a, ctx, s).errors.len() >= a.errors.len(),
{
    lemma_section_child_step_grows(ctx);
    lemma_fold_quiet(section_pre(a, ctx, s), s.children@, crate::validate::section_child_step(ctx));
    assert(section_audit(a, ctx, s) == fold_audit(section_pre(a, ctx, s), s.children@, crate::validate::section_child_step(ctx)));
}

/// A section that passes its checks is written without refusal.
pub proof fn lemma_section_ok(a: Audit, ctx: Ctx, s: MjSection, t: Template, mode: EmitMode)
    requires
        ctx_for(ctx, t, mode),
        quiet(a, section_audit(a, ctx, s)),
    ensures
        forall|o: Out| #[trigger] crate::emit::section_out(o, t, mode, s) is Ok,
{
    let b0 = section_pre(a, ctx, s);
    let step = crate::validate::section_child_step(ctx);
    lemma_section_child_step_grows(ctx);
    lemma_fold_quiet(b0, s.children@, step);
    assert(section_audit(a, ctx, s) == fold_audit(b0, s.children@, step));
    let h = section_head(a, s);
    lemma_bg_ok(
        h,
        ctx,
        "mj-section.background_url"@,
        s.background_url,
        t,
        mode,
        crate::emit::with_unit(
            crate::emit::with_unit(
                crate::emit::with_border(
                    crate::emit::with_padding(
                        crate::emit::with_opt(Seq::empty(), "background-color"@, s.background_color),
                        "padding"@,
                        s.padding,
                    ),
                    "border"@,
                    s.border,
                    s.border_sides,
                ),
                "border-radius"@,
                s.border_radius,
            ),
            "gutter"@,
            s.gutter,
        ),
    );
    assert(crate::emit::section_attrs(t, mode, s) is Ok);
    assert forall|o2: Out, i: int| 0 <= i < s.children@.len() implies (
    #[trigger] crate::emit::section_child_step(t, mode)(o2, s.children@[i])) is Ok by {
        let bi = fold_audit(b0, s.children@.take(i), step);
        assert(quiet(bi, step(bi, s.children@[i])));
        lemma_section_child_ok(bi, ctx, s.children@[i], t, mode);
        assert(crate::emit::section_child_out(o2, t, mode, s.children@[i]) is Ok);
    }
    assert forall|o: Out| #[trigger] crate::emit::section_out(o, t, mode, s) is Ok by {
        let at = crate::emit::section_attrs(t, mode, s)->Ok_0;
        lemma_fold_steps_ok(
            crate::emit::op_open_attrs(o, "mj-section"@, at),
            s.children@,
            crate::emit::section_child_step(t, mode),
        );
    }
}

/// The checks of a hero before its background image.
pub open spec fn hero_head(a: Audit, h: MjHero) -> Audit {
    let a = color_checked(a, "mj-hero.background_color"@, text_or_empty(h.background_color));
    let a = padding_checked(a, "mj-hero.padding"@, h.padding);
    let a = padding_checked(a, "mj-hero.inner_padding"@, h.inner_padding);
    let a = unit_checked(a, "mj-hero.border_radius"@, h.border_radius);
    one_of_checked(a, "mj-hero.vertical_align"@, text_or_empty(h.vertical_align), top_middle_bottom())
}

pub proof fn lemma_hero_grows(a: Audit, ctx: Ctx, h: MjHero)
    ensures
        hero_audit(a, ctx, h).errors.len() >= a.errors.len(),
{
    let b0 = optional_image(hero_head(a, h), ctx, "mj-hero.background_url"@, text_or_empty(h.background_url));
    lemma_child_step_grows(ctx);
    lemma_fold_quiet(b0, h.children@, crate::validate::child_step(ctx));
    assert(hero_audit(a, ctx, h) == fold_audit(b0, h.children@, crate::validate::child_step(ctx)));
}

/// A hero that passes its checks is written without refusal.
pub proof fn lemma_hero_ok(a: Audit, ctx: Ctx, h: MjHero, t: Template, mode: EmitMode)
    requires
        ctx_for(ctx, t, mode),
        quiet(a, hero_audit(a, ctx, h)),
    ensures
        forall|o: Out| #[trigger] crate::emit::hero_out(o, t, mode, h) is Ok,
{
    let hd = hero_head(a, h);
    let b0 = optional_image(hd, ctx, "mj-hero.background_url"@, text_or_empty(h.background_url));
    lemma_child_step_grows(ctx);
    lemma_fold_quiet(b0, h.children@, crate::validate::child_step(ctx));
    assert(hero_audit(a, ctx, h) == fold_audit(b0, h.children@, crate::validate::child_step(ctx)));
    lemma_children_ok(b0, ctx, h.children@, t, mode);
    let first = seq![
        ("mode"@, match h.mode {
            HeroMode::FluidHeight => "fluid-height"@,
            HeroMode::FixedHeight => "fixed-height"@,
        }),
    ];
    lemma_bg_ok(hd, ctx, "mj-hero.background_url"@, h.background_url, t, mode, first);
    assert(crate::emit::hero_attrs(t, mode, h) is Ok);
    assert forall|o: Out| #[trigger] crate::emit::hero_out(o, t, mode, h) is Ok by {
        let at = crate::emit::hero_attrs(t, mode, h)->Ok_0;
        let o1 = crate::emit::op_open_attrs(o, "mj-hero"@, at);
        assert(fold_steps(o1, h.children@, crate::emit::child_step(t, mode)) is Ok);
    }
}

/// The checks of a wrapper before its background image.
pub open spec fn wrapper_pre(a: Audit, w: MjWrapper) -> Audit {
    let a = color_checked(a, "mj-wrapper.background_color"@, text_or_empty(w.background_color));
    let a = padding_checked(a, "mj-wrapper.padding"@, w.padding);
    let a = border_sides_checked(a, "mj-wrapper.border_sides"@, w.border_sides);
    let a = unit_checked(a, "mj-wrapper.border_radius"@, w.border_radius);
    let a = unit_checked(a, "mj-wrapper.gap"@, w.gap);
    one_of_checked(a, "mj-wrapper.background_repeat"@, text_or_empty(w.background_repeat), repeat_values())
}

/// A wrapper whose own checks pass gets its attributes.
pub proof fn lemma_wrapper_attrs_ok(a: Audit, ctx: Ctx, w: MjWrapper, t: Template, mode: EmitMode)
    requires
        ctx_for(ctx, t, mode),
        quiet(a, wrapper_head_audit(a, ctx, w)),
    ensures
        crate::emit::wrapper_attrs(t, mode, w) is Ok,
{
    lemma_bg_ok(
        wrapper_pre(a, w),
        ctx,
        "mj-wrapper.background_url"@,
        w.background_url,
        t,
        mode,
        crate::emit::with_unit(
            crate::emit::with_border(
                crate::emit::with_padding(
                    crate::emit::with_opt(Seq::empty(), "background-color"@, w.background_color),
                    "padding"@,
                    w.padding,
                ),
                "border"@,
                w.border,
                w.border_sides,
            ),
            "border-radius"@,
            w.border_radius,
        ),
    );
}

/// A body node's check never removes errors.
#[verifier::spinoff_prover]
#[verifier::rlimit(40)]
pub proof fn lemma_body_grows(a: Audit, ctx: Ctx, n: BodyNode)
    ensures
        body_audit(a, ctx, n).errors.len() >= a.errors.len(),
    decreases n, 1nat,
{
    match n {
        BodyNode::MjSection(s) => lemma_section_grows(a, ctx, s),
        BodyNode::MjWrapper(w) => lemma_wrapper_children_grows(wrapper_head_audit(a, ctx, w), ctx, w.children@),
        BodyNode::MjHero(h) => lemma_hero_grows(a, ctx, h),
        BodyNode::EmailFooter(f) => {
            crate::gate::lemma_item_steps_grow(ctx);
            lemma_fold_grows(f.social@, crate::validate::social_element_step());
        },
        _ => {},
    }
}

/// A wrapper's children checks never remove errors.
pub proof fn lemma_wrapper_children_grows(a: Audit, ctx: Ctx, ns: Seq<BodyNode>)
    ensures
        wrapper_children_audit(a, ctx, ns).errors.len() >= a.errors.len(),
    decreases ns, 0nat,
{
    if ns.len() > 0 {
        let init = ns.subrange(0, ns.len() - 1);
        lemma_wrapper_children_grows(a, ctx, init);
        let b = wrapper_children_audit(a, ctx, init);
        let n = ns[ns.len() - 1];
        match n {
            BodyNode::MjSection(_) => lemma_body_grows(b, ctx, n),
            BodyNode::MjHero(_) => lemma_body_grows(b, ctx, n),
            _ => {},
        }
    }
}

/// A body node that passes its checks is written without refusal.
pub proof fn lemma_node_ok(a: Audit, ctx: Ctx, n: BodyNode, t: Template, mode: EmitMode)
    requires
        ctx_for(ctx, t, mode),
        quiet(a, body_audit(a, ctx, n)),
    ensures
        forall|o: Out| #[trigger] crate::emit::node_out(o, t, mode, n) is Ok,
    decreases n, 1nat,
{
    match n {
        BodyNode::MjSection(s) => lemma_section_ok(a, ctx, s, t, mode),
        BodyNode::MjWrapper(w) => {
            let hd = wrapper_head_audit(a, ctx, w);
            lemma_wrapper_children_grows(hd, ctx, w.children@);
            lemma_wrapper_attrs_ok(a, ctx, w, t, mode);
            lemma_wrapper_children_ok(hd, ctx, w.children@, t, mode);
            assert forall|o: Out| #[trigger] crate::emit::node_out(o, t, mode, n) is Ok by {
                let at = crate::emit::wrapper_attrs(t, mode, w)->Ok_0;
                lemma_nodes_ok(crate::emit::op_open_attrs(o, "mj-wrapper"@, at), t, mode, w.children@);
            }
        },
        BodyNode::MjHero(h) => lemma_hero_ok(a, ctx, h, t, mode),
        BodyNode::EmailHeader(h) => {
            let a1 = color_checked(a, "email-header.background_color"@, text_or_empty(h.background_color));
            lemma_optional_image_ok(a1, ctx, "email-header.logo_src"@, h.logo_src@, t, mode);
        },
        BodyNode::EmailHero(h) => {
            let a1 = color_checked(a, "email-hero.background_color"@, text_or_empty(h.background_color));
            lemma_optional_image_ok(a1, ctx, "email-hero.image_src"@, h.image_src@, t, mode);
        },
        BodyNode::EmailArticle(x) => {
            lemma_optional_image_ok(a, ctx, "email-article.image_src"@, x.image_src@, t, mode);
        },
        _ => {},
    }
}

/// Every child of a wrapper whose children pass their checks is written
/// without refusal.
pub proof fn lemma_wrapper_children_ok(a: Audit, ctx: Ctx, ns: Seq<BodyNode>, t: Template, mode: EmitMode)
    requires
        ctx_for(ctx, t, mode),
        quiet(a, wrapper_children_audit(a, ctx, ns)),
    ensures
        forall|i: int, o: Out| 0 <= i < ns.len() ==> (#[trigger] crate::emit::node_out(o, t, mode, ns[i])) is Ok,
    decreases ns, 0nat,
{
    if ns.len() > 0 {
        let init = ns.subrange(0, ns.len() - 1);
        lemma_wrapper_children_grows(a, ctx, init);
        let b = wrapper_children_audit(a, ctx, init);
        let n = ns[ns.len() - 1];
        match n {
            BodyNode::MjSection(_) => lemma_body_grows(b, ctx, n),
            BodyNode::MjHero(_) => lemma_body_grows(b, ctx, n),
            _ => {},
        }
        lemma_wrapper_children_ok(a, ctx, init, t, mode);
        lemma_node_ok(b, ctx, n, t, mode);
        assert forall|i: int, o: Out| 0 <= i < ns.len() implies (#[trigger] crate::emit::node_out(
            o,
            t,
            mode,
            ns[i],
        )) is Ok by {
            if i < ns.len() - 1 {
                assert(ns[i] == init[i]);
            }
        }
    }
}

/// Nodes that are each written without refusal are written in a row
/// without refusal.
pub proof fn lemma_nodes_ok(o: Out, t: Template, mode: EmitMode, ns: Seq<BodyNode>)
    requires
        forall|i: int, o2: Out| 0 <= i < ns.len() ==> (#[trigger] crate::emit::node_out(o2, t, mode, ns[i])) is Ok,
    ensures
        crate::emit::nodes_out(o, t, mode, ns) is Ok,
    decreases ns.len(),
{
    if ns.len() > 0 {
        let rest = ns.subrange(1, ns.len() as int);
        assert(crate::emit::node_out(o, t, mode, ns[0]) is Ok);
        let o2 = crate::emit::node_out(o, t, mode, ns[0])->Ok_0;
        assert forall|i: int, o3: Out| 0 <= i < rest.len() implies (#[trigger] crate::emit::node_out(
            o3,
            t,
            mode,
            rest[i],
        )) is Ok by {
            assert(rest[i] == ns[i + 1]);
            assert(crate::emit::node_out(o3, t, mode, ns[i + 1]) is Ok);
        }
        lemma_nodes_ok(o2, t, mode, rest);
    }
}

/// The head checks before `head.json_ld` is read.
pub open spec fn head_pre(a: Audit, t: Template) -> Audit {
    let a = if t.version != 1 {
        err(a, "version must be 1, got "@ + decimal(t.version as nat))
    } else {
        a
    };
    let a = nonempty_checked(a, "name"@, t.name@);
    let a = nonempty_checked(a, "subject"@, t.subject@);
    let a = nonempty_checked(a, "head.title"@, t.head.title@);
    let a = nonempty_checked(a, "lang"@, t.lang@);
    let a = one_of_checked(a, "dir"@, t.dir@, seq!["auto"@, "ltr"@, "rtl"@]);
    let w = t.brand.content_width;
    let a = if 320 <= w && w <= 800 {
        a
    } else {
        err(a, "brand.content_width must be 320..=800, got "@ + decimal(w as nat))
    };
    let a = color_checked(a, "brand.text_color"@, t.brand.text_color@);
    let a = color_checked(a, "brand.background_color"@, t.brand.background_color@);
    let a = color_checked(a, "brand.button_background"@, t.brand.button_background@);
    let a = color_checked(a, "brand.button_color"@, t.brand.button_color@);
    let a = color_checked(a, "body.background_color"@, t.body.background_color@);
    fonts_audit(a, t.head.fonts@)
}

/// The stylesheet check never removes errors.
pub proof fn lemma_css_grows(a: Audit, raw: Seq<char>)
    ensures
        css_audit(a, raw).errors.len() >= a.errors.len(),
{
    let css = trim(raw);
    if css.len() > 0 {
        let a1 = if contains_ci(css, "</mj-style>"@) || contains_ci(css, "</mj-"@) {
            err(a, "head.css contains a forbidden MJML closer"@)
        } else {
            a
        };
        let a2 = if contains_ci(css, "@import"@) {
            err(a1, "head.css must not contain @import"@)
        } else {
            a1
        };
        lemma_fold_quiet(a2, css_urls_from(css, 0), css_url_step());
        assert(css_audit(a, raw) == fold_audit(a2, css_urls_from(css, 0), css_url_step()));
    }
}

/// A reading with no error findings has a payload.
pub proof fn lemma_findings_payload(r: JsonShape)
    requires
        findings_of(r).0.len() == 0,
    ensures
        payload_of(r) is Ok,
{
}

/// What passes every check is written as MJML without refusal: a template
/// whose report has no errors always emits, in preview (checked without
/// the export rules) and in export (checked with them).
pub proof fn law_clean_report_emits(t: Template, files: Option<Seq<Seq<char>>>, mode: EmitMode)
    requires
        report_of(t, files, mode is Export).0.len() == 0,
    ensures
        mjml_of(t, mode) is Ok,
{
    let ctx = Ctx { files, export: mode is Export, base_url: t.base_url@ };
    let h = head_checks(initial_audit(t), t);
    let step = body_step(ctx);
    assert forall|a: Audit, x: BodyNode| #[trigger] step(a, x).errors.len() >= a.errors.len() by {
        lemma_body_grows(a, ctx, x);
    }
    lemma_fold_quiet(h, t.body.nodes@, step);
    let a1 = fold_audit(h, t.body.nodes@, step);
    lemma_fold_quiet(a1, t.head.fonts@, unused_font_step());
    let pre = head_pre(initial_audit(t), t);
    let j = json_ld_findings(t.head.json_ld@);
    let merged = Audit { errors: pre.errors + j.0, warnings: pre.warnings + j.1, ..pre };
    assert(h == css_audit(merged, t.head.css@));
    lemma_css_grows(merged, t.head.css@);
    assert(j.0.len() == 0);
    if trim(t.head.json_ld@).len() > 0 {
        lemma_findings_payload(json_reading(trim(t.head.json_ld@)));
    }
    assert(crate::emit::head_out(Out { text: Seq::empty(), depth: 0 }, t) is Ok);
    let o = crate::emit::head_out(Out { text: Seq::empty(), depth: 0 }, t)->Ok_0;
    assert forall|i: int, o2: Out| 0 <= i < t.body.nodes@.len() implies (#[trigger] crate::emit::node_out(
        o2,
        t,
        mode,
        t.body.nodes@[i],
    )) is Ok by {
        let bi = fold_audit(h, t.body.nodes@.take(i), step);
        assert(quiet(bi, step(bi, t.body.nodes@[i])));
        lemma_node_ok(bi, ctx, t.body.nodes@[i], t, mode);
    }
    lemma_nodes_ok(crate::emit::body_open(o, t), t, mode, t.body.nodes@);
}

} // verus!
