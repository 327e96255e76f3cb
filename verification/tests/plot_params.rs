use opossum::plot::{CGradient, ColorBar, LabelPos, PltBackEnd};
use opossum::plot_params::{AxLims, PlotArgs, PlotParameters};

fn defaults() -> PlotParameters {
    PlotParameters::default_with(".", "opossum_default_plot_0.png")
}

fn lims(min: f64, max: f64) -> AxLims {
    AxLims { min: min.to_bits(), max: max.to_bits() }
}

fn valid(arg: &PlotArgs) -> bool {
    arg.is_valid(true, true)
}

#[test]
fn mod_empty_plot_params() {
    let plt_params = PlotParameters::empty();
    assert_eq!(plt_params.get_backend().is_err(), true);
    assert_eq!(plt_params.get_x_label().is_err(), true);
    assert_eq!(plt_params.get_x_label_pos().is_err(), true);
    assert_eq!(plt_params.get_y_label().is_err(), true);
    assert_eq!(plt_params.get_y_label_pos().is_err(), true);
    assert_eq!(plt_params.get_cbar_label().is_err(), true);
    assert_eq!(plt_params.get_cbar_label_pos().is_err(), true);
    assert_eq!(plt_params.get_xlim().is_err(), true);
    assert_eq!(plt_params.get_ylim().is_err(), true);
    assert_eq!(plt_params.get_zlim().is_err(), true);
    assert_eq!(plt_params.get_fdir().is_err(), true);
    assert_eq!(plt_params.get_fname().is_err(), true);
    assert_eq!(plt_params.get_cmap().is_err(), true);
    assert_eq!(plt_params.get_plotsize().is_err(), true);
}

#[test]
fn mod_new_plot_params() {
    let plt_args = vec![
        PlotArgs::XLabel("new x test".into()),
        PlotArgs::XLabelPos(LabelPos::Top),
    ];
    let plt_params = PlotParameters::new(plt_args, ".", "opossum_default_plot_0.png");
    assert_eq!(plt_params.get_x_label().unwrap(), "new x test".to_owned());
    assert_eq!(plt_params.get_x_label_pos().unwrap(), LabelPos::Top);
}

#[test]
fn mod_plot_params_set_invalid() {
    let mut plt_params = defaults();
    assert!(plt_params
        .set(PlotArgs::FName("test.invalidfileext".to_owned()), true, true)
        .is_err());
}

#[test]
fn mod_plot_params_backend() {
    let mut plt_params = defaults();
    plt_params.set(PlotArgs::Backend(PltBackEnd::Buf), true, true).unwrap();
    assert_eq!(plt_params.get_backend().unwrap(), PltBackEnd::Buf);
}

#[test]
fn mod_plot_params_xlabel() {
    let mut plt_params = defaults();
    plt_params.set(PlotArgs::XLabel("x test".into()), true, true).unwrap();
    assert_eq!(plt_params.get_x_label().unwrap(), "x test".to_owned());
}

#[test]
fn mod_plot_params_xlabelpos() {
    let mut plt_params = defaults();
    plt_params.set(PlotArgs::XLabelPos(LabelPos::Top), true, true).unwrap();
    assert_eq!(plt_params.get_x_label_pos().unwrap(), LabelPos::Top);
}

#[test]
fn mod_plot_params_ylabel() {
    let mut plt_params = defaults();
    plt_params.set(PlotArgs::YLabel("y test".into()), true, true).unwrap();
    assert_eq!(plt_params.get_y_label().unwrap(), "y test".to_owned());
}

#[test]
fn mod_plot_params_ylabelpos() {
    let mut plt_params = defaults();
    plt_params.set(PlotArgs::YLabelPos(LabelPos::Right), true, true).unwrap();
    assert_eq!(plt_params.get_y_label_pos().unwrap(), LabelPos::Right);
}

#[test]
fn mod_plot_params_cbarlabel() {
    let mut plt_params = defaults();
    plt_params.set(PlotArgs::CBarLabel("cbar test".into()), true, true).unwrap();
    assert_eq!(plt_params.get_cbar_label().unwrap(), "cbar test".to_owned());
}

#[test]
fn mod_plot_params_cbarlabelpos() {
    let mut plt_params = defaults();
    plt_params.set(PlotArgs::CBarLabelPos(LabelPos::Left), true, true).unwrap();
    assert_eq!(plt_params.get_cbar_label_pos().unwrap(), LabelPos::Left);
}

#[test]
fn mod_plot_params_cmap() {
    let mut plt_params = defaults();
    plt_params.set(PlotArgs::CMap(CGradient::default()), true, true).unwrap();
    assert_eq!(
        format!("{:?}", plt_params.get_cmap().unwrap().get_gradient()),
        "Gradient(Turbo)".to_owned()
    );
}

#[test]
fn mod_plot_params_ax_lims() {
    let mut plt_params = defaults();
    plt_params.set(PlotArgs::XLim(Some(lims(0., 1.))), true, true).unwrap();
    assert_eq!(plt_params.get_xlim().unwrap().unwrap(), lims(0., 1.));
    plt_params.set(PlotArgs::XLim(None), true, true).unwrap();
    assert_eq!(plt_params.get_xlim().unwrap(), None);

    plt_params.set(PlotArgs::YLim(Some(lims(0., 1.))), true, true).unwrap();
    assert_eq!(plt_params.get_ylim().unwrap().unwrap(), lims(0., 1.));
    plt_params.set(PlotArgs::YLim(None), true, true).unwrap();
    assert_eq!(plt_params.get_ylim().unwrap(), None);

    plt_params.set(PlotArgs::ZLim(Some(lims(0., 1.))), true, true).unwrap();
    assert_eq!(plt_params.get_zlim().unwrap().unwrap(), lims(0., 1.));
    plt_params.set(PlotArgs::ZLim(None), true, true).unwrap();
    assert_eq!(plt_params.get_zlim().unwrap(), None);
}

#[test]
fn mod_plot_params_fname() {
    let mut plt_params = defaults();
    plt_params.set(PlotArgs::FName("test_name.png".to_owned()), true, true).unwrap();
    assert_eq!(plt_params.get_fname().unwrap(), "test_name.png".to_owned());
}

#[test]
fn mod_check_plot_arg_validity_xlabel_pos() {
    assert!(valid(&PlotArgs::XLabelPos(LabelPos::Bottom)));
    assert!(valid(&PlotArgs::XLabelPos(LabelPos::Top)));
    assert!(!valid(&PlotArgs::XLabelPos(LabelPos::Left)));
    assert!(!valid(&PlotArgs::XLabelPos(LabelPos::Right)));
}

#[test]
fn mod_check_plot_arg_validity_ylabel_pos() {
    assert!(!valid(&PlotArgs::YLabelPos(LabelPos::Bottom)));
    assert!(!valid(&PlotArgs::YLabelPos(LabelPos::Top)));
    assert!(valid(&PlotArgs::YLabelPos(LabelPos::Left)));
    assert!(valid(&PlotArgs::YLabelPos(LabelPos::Right)));
}

#[test]
fn mod_check_plot_arg_validity_lims() {
    assert!(valid(&PlotArgs::XLim(None)));
}

#[test]
fn mod_check_plot_arg_validity_fname() {
    assert!(!valid(&PlotArgs::FName("invalid.pdf".to_owned())));
    assert!(!valid(&PlotArgs::FName("invalid.abc".to_owned())));
    assert!(valid(&PlotArgs::FName("valid.jpg".to_owned())));
    assert!(valid(&PlotArgs::FName("valid.png".to_owned())));
    assert!(valid(&PlotArgs::FName("valid.bmp".to_owned())));
    assert!(valid(&PlotArgs::FName("valid.svg".to_owned())));
    assert!(valid(&PlotArgs::FName("valid.sVg".to_owned())));
    assert!(valid(&PlotArgs::FName("valid.test.sVg".to_owned())));
}

#[test]
fn mod_check_backend_fpath_compatibility_test() {
    let mut plt_params = defaults();
    assert!(plt_params.check_backend_file_ext_compatibility().is_ok());

    let _ = plt_params.set(PlotArgs::FName("test.bmp".to_owned()), true, true);
    assert!(plt_params.check_backend_file_ext_compatibility().is_ok());

    let _ = plt_params.set(PlotArgs::FName("test.jpg".to_owned()), true, true);
    assert!(plt_params.check_backend_file_ext_compatibility().is_ok());

    let _ = plt_params.set(PlotArgs::FName("test.svg".to_owned()), true, true);
    assert!(plt_params.check_backend_file_ext_compatibility().is_err());

    let _ = plt_params.set(PlotArgs::Backend(PltBackEnd::SVG), true, true);
    assert!(plt_params.check_backend_file_ext_compatibility().is_ok());

    let _ = plt_params.set(PlotArgs::FName("test.bmp".to_owned()), true, true);
    assert!(plt_params.check_backend_file_ext_compatibility().is_err());

    let _ = plt_params.set(PlotArgs::Backend(PltBackEnd::Buf), true, true);
    assert!(plt_params.check_backend_file_ext_compatibility().is_ok());

    let _ = plt_params.set(PlotArgs::FName("test.abcdefghijkelemenop".to_owned()), true, true);
    assert!(plt_params.check_backend_file_ext_compatibility().is_ok());
}

#[test]
fn mod_colorbar_new() {
    let colorbar = ColorBar::new(colorous::TURBO, "fancy label", LabelPos::Right);
    assert_eq!(format!("{:?}", colorbar.cmap()), "Gradient(Turbo)".to_owned());
    assert_eq!(colorbar.label().label(), "fancy label".to_owned());
    assert_eq!(colorbar.label().label_pos(), LabelPos::Right);
}

#[test]
fn mod_colorbar_default() {
    let colorbar = ColorBar::default();
    assert_eq!(format!("{:?}", colorbar.cmap()), "Gradient(Turbo)".to_owned());
    assert_eq!(colorbar.label().label(), "".to_owned());
    assert_eq!(colorbar.label().label_pos(), LabelPos::Right);
}

#[test]
fn mod_colorbar_set_label() {
    let mut colorbar = ColorBar::default();
    colorbar.set_label("labeltest");
    assert_eq!(colorbar.label().label(), "labeltest".to_owned());
}

#[test]
fn mod_colorbar_set_pos() {
    let mut colorbar = ColorBar::default();
    colorbar.set_pos(LabelPos::Top);
    assert_eq!(colorbar.label().label_pos(), LabelPos::Top);
}

#[test]
fn mod_cgradient_default() {
    let c_grad = CGradient::default();
    assert_eq!(format!("{:?}", c_grad.get_gradient()), "Gradient(Turbo)".to_owned());
}

#[test]
fn mod_cgradient_get_gradient() {
    let c_grad = CGradient::default();
    assert_eq!(format!("{:?}", c_grad.get_gradient()), "Gradient(Turbo)".to_owned());
}

#[test]
fn plottable_new_plot_params() {
    let plt_args = vec![
        PlotArgs::XLabel("new x test".into()),
        PlotArgs::XLabelPos(LabelPos::Top),
    ];
    let plt_params = PlotParameters::new(plt_args, ".", "opossum_default_plot_0.png");
    assert_eq!(plt_params.get_x_label().unwrap(), "new x test".to_owned());
    assert_eq!(plt_params.get_x_label_pos().unwrap(), LabelPos::Top);
}

#[test]
fn plottable_plot_params_set_invalid() {
    let mut plt_params = defaults();
    assert!(plt_params
        .set(PlotArgs::FName("test.invalidfileext".to_owned()), true, true)
        .is_err());
}

#[test]
fn plottable_plot_params_backend() {
    let mut plt_params = defaults();
    plt_params.set(PlotArgs::Backend(PltBackEnd::Buf), true, true).unwrap();
    assert_eq!(plt_params.get_backend().unwrap(), PltBackEnd::Buf);
}

#[test]
fn plottable_plot_params_xlabel() {
    let mut plt_params = defaults();
    plt_params.set(PlotArgs::XLabel("x test".into()), true, true).unwrap();
    assert_eq!(plt_params.get_x_label().unwrap(), "x test".to_owned());
}

#[test]
fn plottable_plot_params_xlabelpos() {
    let mut plt_params = defaults();
    plt_params.set(PlotArgs::XLabelPos(LabelPos::Top), true, true).unwrap();
    assert_eq!(plt_params.get_x_label_pos().unwrap(), LabelPos::Top);
}

#[test]
fn plottable_plot_params_ylabel() {
    let mut plt_params = defaults();
    plt_params.set(PlotArgs::YLabel("y test".into()), true, true).unwrap();
    assert_eq!(plt_params.get_y_label().unwrap(), "y test".to_owned());
}

#[test]
fn plottable_plot_params_ylabelpos() {
    let mut plt_params = defaults();
    plt_params.set(PlotArgs::YLabelPos(LabelPos::Right), true, true).unwrap();
    assert_eq!(plt_params.get_y_label_pos().unwrap(), LabelPos::Right);
}

#[test]
fn plottable_plot_params_cbarlabel() {
    let mut plt_params = defaults();
    plt_params.set(PlotArgs::CBarLabel("cbar test".into()), true, true).unwrap();
    assert_eq!(plt_params.get_cbar_label().unwrap(), "cbar test".to_owned());
}

#[test]
fn plottable_plot_params_cbarlabelpos() {
    let mut plt_params = defaults();
    plt_params.set(PlotArgs::CBarLabelPos(LabelPos::Left), true, true).unwrap();
    assert_eq!(plt_params.get_cbar_label_pos().unwrap(), LabelPos::Left);
}

#[test]
fn plottable_plot_params_cmap() {
    let mut plt_params = defaults();
    plt_params.set(PlotArgs::CMap(CGradient::default()), true, true).unwrap();
    assert_eq!(
        format!("{:?}", plt_params.get_cmap().unwrap().get_gradient()),
        "Gradient(Turbo)".to_owned()
    );
}

#[test]
fn plottable_plot_params_ax_lims() {
    let mut plt_params = defaults();
    plt_params.set(PlotArgs::XLim(Some(lims(0., 1.))), true, true).unwrap();
    assert_eq!(plt_params.get_xlim().unwrap().unwrap(), lims(0., 1.));
    plt_params.set(PlotArgs::XLim(None), true, true).unwrap();
    assert_eq!(plt_params.get_xlim().unwrap(), None);

    plt_params.set(PlotArgs::YLim(Some(lims(0., 1.))), true, true).unwrap();
    assert_eq!(plt_params.get_ylim().unwrap().unwrap(), lims(0., 1.));
    plt_params.set(PlotArgs::YLim(None), true, true).unwrap();
    assert_eq!(plt_params.get_ylim().unwrap(), None);

    plt_params.set(PlotArgs::ZLim(Some(lims(0., 1.))), true, true).unwrap();
    assert_eq!(plt_params.get_zlim().unwrap().unwrap(), lims(0., 1.));
    plt_params.set(PlotArgs::ZLim(None), true, true).unwrap();
    assert_eq!(plt_params.get_zlim().unwrap(), None);
}

#[test]
fn plottable_plot_params_fname() {
    let mut plt_params = defaults();
    plt_params.set(PlotArgs::FName("test_name.png".to_owned()), true, true).unwrap();
    assert_eq!(plt_params.get_fname().unwrap(), "test_name.png".to_owned());
}

#[test]
fn plottable_check_plot_arg_validity_xlabel_pos() {
    assert!(valid(&PlotArgs::XLabelPos(LabelPos::Bottom)));
    assert!(valid(&PlotArgs::XLabelPos(LabelPos::Top)));
    assert!(!valid(&PlotArgs::XLabelPos(LabelPos::Left)));
    assert!(!valid(&PlotArgs::XLabelPos(LabelPos::Right)));
}

#[test]
fn plottable_check_plot_arg_validity_ylabel_pos() {
    assert!(!valid(&PlotArgs::YLabelPos(LabelPos::Bottom)));
    assert!(!valid(&PlotArgs::YLabelPos(LabelPos::Top)));
    assert!(valid(&PlotArgs::YLabelPos(LabelPos::Left)));
    assert!(valid(&PlotArgs::YLabelPos(LabelPos::Right)));
}

#[test]
fn plottable_check_plot_arg_validity_lims() {
    assert!(valid(&PlotArgs::XLim(None)));
}

#[test]
fn plottable_check_plot_arg_validity_fname() {
    assert!(!valid(&PlotArgs::FName("invalid.pdf".to_owned())));
    assert!(!valid(&PlotArgs::FName("invalid.abc".to_owned())));
    assert!(valid(&PlotArgs::FName("valid.jpg".to_owned())));
    assert!(valid(&PlotArgs::FName("valid.png".to_owned())));
    assert!(valid(&PlotArgs::FName("valid.bmp".to_owned())));
    assert!(valid(&PlotArgs::FName("valid.svg".to_owned())));
    assert!(valid(&PlotArgs::FName("valid.sVg".to_owned())));
    assert!(valid(&PlotArgs::FName("valid.test.sVg".to_owned())));
}

#[test]
fn plottable_check_backend_fpath_compatibility_test() {
    let mut plt_params = defaults();
    assert!(plt_params.check_backend_file_ext_compatibility().is_ok());

    let _ = plt_params.set(PlotArgs::FName("test.bmp".to_owned()), true, true);
    assert!(plt_params.check_backend_file_ext_compatibility().is_ok());

    let _ = plt_params.set(PlotArgs::FName("test.jpg".to_owned()), true, true);
    assert!(plt_params.check_backend_file_ext_compatibility().is_ok());

    let _ = plt_params.set(PlotArgs::FName("test.svg".to_owned()), true, true);
    assert!(plt_params.check_backend_file_ext_compatibility().is_err());

    let _ = plt_params.set(PlotArgs::Backend(PltBackEnd::SVG), true, true);
    assert!(plt_params.check_backend_file_ext_compatibility().is_ok());

    let _ = plt_params.set(PlotArgs::FName("test.bmp".to_owned()), true, true);
    assert!(plt_params.check_backend_file_ext_compatibility().is_err());

    let _ = plt_params.set(PlotArgs::Backend(PltBackEnd::Buf), true, true);
    assert!(plt_params.check_backend_file_ext_compatibility().is_ok());

    let _ = plt_params.set(PlotArgs::FName("test.abcdefghijkelemenop".to_owned()), true, true);
    assert!(plt_params.check_backend_file_ext_compatibility().is_ok());
}

#[test]
fn plottable_colorbar_new() {
    let colorbar = ColorBar::new(colorous::TURBO, "fancy label", LabelPos::Right);
    assert_eq!(format!("{:?}", colorbar.cmap()), "Gradient(Turbo)".to_owned());
    assert_eq!(colorbar.label().label(), "fancy label".to_owned());
    assert_eq!(colorbar.label().label_pos(), LabelPos::Right);
}

#[test]
fn plottable_colorbar_default() {
    let colorbar = ColorBar::default();
    assert_eq!(format!("{:?}", colorbar.cmap()), "Gradient(Turbo)".to_owned());
    assert_eq!(colorbar.label().label(), "".to_owned());
    assert_eq!(colorbar.label().label_pos(), LabelPos::Right);
}

#[test]
fn plottable_colorbar_set_label() {
    let mut colorbar = ColorBar::default();
    colorbar.set_label("labeltest");
    assert_eq!(colorbar.label().label(), "labeltest".to_owned());
}

#[test]
fn plottable_colorbar_set_pos() {
    let mut colorbar = ColorBar::default();
    colorbar.set_pos(LabelPos::Top);
    assert_eq!(colorbar.label().label_pos(), LabelPos::Top);
}

#[test]
fn plottable_cgradient_default() {
    let c_grad = CGradient::default();
    assert_eq!(format!("{:?}", c_grad.get_gradient()), "Gradient(Turbo)".to_owned());
}

#[test]
fn plottable_cgradient_get_gradient() {
    let c_grad = CGradient::default();
    assert_eq!(format!("{:?}", c_grad.get_gradient()), "Gradient(Turbo)".to_owned());
}

#[test]
fn check_plot_arg_validity_plotsize() {
    assert!(!valid(&PlotArgs::PlotSize((0, 0))));
    assert!(!valid(&PlotArgs::PlotSize((0, 1))));
    assert!(!valid(&PlotArgs::PlotSize((1, 0))));
    assert!(valid(&PlotArgs::PlotSize((1, 1))));
}

#[test]
fn check_plot_arg_validity_figsize() {
    assert!(!valid(&PlotArgs::PlotSize((0, 0))));
    assert!(!valid(&PlotArgs::PlotSize((0, 1))));
    assert!(!valid(&PlotArgs::PlotSize((1, 0))));
    assert!(valid(&PlotArgs::PlotSize((1, 1))));
}

#[test]
fn plot_params_default_values() {
    let plt_params = defaults();
    assert_eq!(plt_params.get_backend().unwrap(), PltBackEnd::Bitmap);
    assert_eq!(plt_params.get_x_label().unwrap(), "x".to_owned());
    assert_eq!(plt_params.get_x_label_pos().unwrap(), LabelPos::Bottom);
    assert_eq!(plt_params.get_y_label().unwrap(), "y".to_owned());
    assert_eq!(plt_params.get_y_label_pos().unwrap(), LabelPos::Left);
    assert_eq!(plt_params.get_cbar_label().unwrap(), "z value".to_owned());
    assert_eq!(plt_params.get_cbar_label_pos().unwrap(), LabelPos::Right);
    assert_eq!(plt_params.get_xlim().unwrap(), None);
    assert_eq!(plt_params.get_ylim().unwrap(), None);
    assert_eq!(plt_params.get_zlim().unwrap(), None);
    assert_eq!(
        format!("{:?}", plt_params.get_cmap().unwrap().get_gradient()),
        "Gradient(Turbo)".to_owned()
    );
    assert_eq!(plt_params.get_fdir().unwrap(), ".".to_owned());
    assert_eq!(plt_params.get_fname().unwrap(), "opossum_default_plot_0.png".to_owned());
    assert_eq!(plt_params.get_plotsize().unwrap(), (800, 800));
    assert_eq!(plt_params.get_axis_equal_flag().unwrap(), true);
    assert_eq!(plt_params.get_plot_auto_size_flag().unwrap(), false);
    assert_eq!(plt_params.get_expand_bounds_flag().unwrap(), true);
    assert_eq!(plt_params.get_legend_flag().unwrap(), true);
    let minus_one = (-1.0f64).to_bits();
    assert_eq!(plt_params.get_3d_view().unwrap(), (minus_one, minus_one, minus_one));
}

#[test]
fn plot_params_invalid_set_keeps_value() {
    let mut plt_params = defaults();
    let e = plt_params.set(PlotArgs::XLabelPos(LabelPos::Left), true, true);
    assert!(e.is_err());
    assert_eq!(plt_params.get_x_label_pos().unwrap(), LabelPos::Bottom);
    assert!(plt_params.set(PlotArgs::FDir("nowhere".to_owned()), false, true).is_err());
    assert_eq!(plt_params.get_fdir().unwrap(), ".".to_owned());
    assert!(plt_params.set(PlotArgs::XLim(Some(lims(1., 0.))), true, false).is_err());
    assert_eq!(plt_params.get_xlim().unwrap(), None);
}

#[test]
fn plot_params_new_last_argument_wins() {
    let plt_args = vec![
        PlotArgs::XLabel("first".into()),
        PlotArgs::XLabel("second".into()),
    ];
    let plt_params = PlotParameters::new(plt_args, ".", "a.png");
    assert_eq!(plt_params.get_x_label().unwrap(), "second".to_owned());
    assert_eq!(plt_params.get_y_label().unwrap(), "y".to_owned());
}

#[test]
fn plot_args_keys() {
    assert_eq!(PlotArgs::XLabel("a".into()).key(), "xlabel".to_owned());
    assert_eq!(PlotArgs::Legend(true).key(), "legend".to_owned());
    assert_eq!(PlotArgs::ViewDirection3D((0, 0, 0)).key(), "view3d".to_owned());
    assert_eq!(PlotArgs::Backend(PltBackEnd::SVG).kind(), 16);
}

#[test]
fn plot_params_check_if_set() {
    let plt_params = PlotParameters::empty();
    assert!(!plt_params.check_if_set(&PlotArgs::Legend(true)));
    let plt_params = defaults();
    assert!(plt_params.check_if_set(&PlotArgs::Legend(false)));
}

#[test]
fn file_names_with_directories() {
    assert!(valid(&PlotArgs::FName("dir/x.png".to_owned())));
    assert!(valid(&PlotArgs::FName("/tmp/plots/x.SVG".to_owned())));
    assert!(!valid(&PlotArgs::FName("dir.png/x".to_owned())));
    assert!(!valid(&PlotArgs::FName("dir/x.pdf".to_owned())));
    let mut plt_params = defaults();
    assert!(plt_params.set(PlotArgs::FName("out/test.bmp".to_owned()), true, true).is_ok());
    assert!(plt_params.check_backend_file_ext_compatibility().is_ok());
}
