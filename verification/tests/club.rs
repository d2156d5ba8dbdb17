use club_sem_rust::cuenta::{contiene, AccountId};
use club_sem_rust::fecha::LocalDateTime;
use club_sem_rust::registro::{Actividad, Categoria, ClubSemRust, Entorno, Error, TipoId};
use club_sem_rust::reportes::{quitar_repetidos_consecutivos, ReportesClubSemRust};
use club_sem_rust::reportes::Error as ErrorReporte;

const RELOJ: u64 = 45184555;
const DIA: u64 = 86400;

fn cuenta(n: u8) -> AccountId {
    AccountId::new([n; 32])
}

fn duenia() -> Entorno {
    Entorno { caller: cuenta(1), ahora: RELOJ }
}

fn duenia_en(ahora: u64) -> Entorno {
    Entorno { caller: cuenta(1), ahora }
}

fn extranio() -> Entorno {
    Entorno { caller: cuenta(3), ahora: RELOJ }
}

fn club_con(cant: u32, porcentaje: u32) -> ClubSemRust {
    let mut club = ClubSemRust::new(cuenta(1), cant, porcentaje, true, &duenia());
    let e = duenia();
    let todas = vec![
        Actividad::Natacion,
        Actividad::Futbol,
        Actividad::Gimnasio,
        Actividad::Basquet,
        Actividad::Rugby,
        Actividad::Hockey,
        Actividad::Tenis,
        Actividad::Paddle,
    ];
    assert!(club.cargar_data_categoria(Categoria::A, 5000, todas, &e).is_ok());
    let b = Categoria::B { deporte_seleccionado_por_el_usuario: Actividad::Futbol };
    assert!(club.cargar_data_categoria(b, 3000, vec![Actividad::Gimnasio], &e).is_ok());
    assert!(club.cargar_data_categoria(Categoria::C, 2000, vec![Actividad::Gimnasio], &e).is_ok());
    club
}

fn registrar(club: &mut ClubSemRust, dni: u32, categoria: Categoria) -> u128 {
    assert!(club.registrar_nuevo_socio("ana".to_string(), "gomez".to_string(), dni, categoria, &duenia()).is_ok());
    club.get_id_socio_con_dni(dni).unwrap()
}

fn futbol_b() -> Categoria {
    Categoria::B { deporte_seleccionado_por_el_usuario: Actividad::Futbol }
}

#[test]
fn club_nuevo_recorta_el_porcentaje() {
    let club = ClubSemRust::new(cuenta(1), 3, 150, true, &duenia());
    assert_eq!(club.porcentaje_de_descuento_por_bonificacion, 1);
    let club = ClubSemRust::new(cuenta(1), 3, 99, true, &duenia());
    assert_eq!(club.porcentaje_de_descuento_por_bonificacion, 99);
    assert_eq!(club.fecha_de_la_ultima_actualizacion, RELOJ);
    assert_eq!(club.cant_categorias(), 3);
    assert_eq!(club.cant_actividades(), 8);
    assert!(!club.todas_las_categorias_tienen_sus_datas_cargadas());
}

#[test]
fn errores_de_permisos() {
    let mut club = club_con(3, 10);
    let e = extranio();
    assert_eq!(club.set_duenio(cuenta(3), &e), Err(Error::NoSePoseenLosPermisosSuficientes));
    assert_eq!(club.activar_politica_de_autorizacion(&e), Err(Error::NoSePoseenLosPermisosSuficientes));
    assert_eq!(club.desactivar_politica_de_autorizacion(&e), Err(Error::NoSePoseenLosPermisosSuficientes));
    assert_eq!(club.desautorizar_editor(cuenta(2), &e), Err(Error::NoSePoseenLosPermisosSuficientes));
    assert_eq!(
        club.registrar_nuevo_socio("a".to_string(), "b".to_string(), 1, Categoria::A, &e),
        Err(Error::NoSePoseenLosPermisosSuficientes)
    );
    assert_eq!(club.get_data_pagos(&e), Err(Error::NoSePoseenLosPermisosSuficientes));
    assert_eq!(club.actualizacion_mensual(&e), Err(Error::NoSePoseenLosPermisosSuficientes));
    assert_eq!(club.marcar_pago_pagado(0, &e), Err(Error::NoSePoseenLosPermisosSuficientes));
    assert!(!club.tengo_permisos_suficientes_para_realizar_operaciones(&e));
}

#[test]
fn errores_de_socios_pagos_y_categorias() {
    let mut club = ClubSemRust::new(cuenta(1), 3, 10, true, &duenia());
    let e = duenia();
    assert_eq!(
        club.registrar_nuevo_socio("a".to_string(), "b".to_string(), 1, Categoria::A, &e),
        Err(Error::CategoriaSinData)
    );
    assert_eq!(club.get_categoria_datos(3).err(), Some(Error::CategoriaInvalida));
    assert_eq!(club.get_categoria_datos(0).err(), Some(Error::CategoriaSinData));
    assert_eq!(club.get_data_categoria_datos(7).err(), Some(Error::CategoriaInvalida));
    assert_eq!(club.get_data_socio_con_id(1, &e).err(), Some(Error::SocioNoRegistrado));
    assert_eq!(club.get_data_pagos_del_socio_con_id(0, &e).err(), Some(Error::SocioNoRegistrado));
    assert_eq!(club.pago_esta_vencido(0, &e), Err(Error::PagoNoRegistrado));
    assert_eq!(club.marcar_pago_pagado(0, &e), Err(Error::PagoNoRegistrado));
    assert_eq!(club.registrar_nuevo_pago(1, 10, &e), Err(Error::SocioNoRegistrado));
    assert_eq!(club.socio_tiene_permitida_la_asistencia_a(1, 8), Err(Error::ActividadInvalida));
    assert_eq!(club.socio_tiene_permitida_la_asistencia_a(1, 0), Err(Error::SocioNoRegistrado));
    assert_eq!(club.get_data_pagos_del_mes_y_anio(13, 2021, &e), Err(Error::FechaInvalida));
    assert_eq!(ClubSemRust::construir_fecha_midnight(2023, 2, 29), Err(Error::FechaInvalida));
}

#[test]
fn errores_al_pagar() {
    let mut club = club_con(3, 10);
    let e = duenia();
    let id = registrar(&mut club, 40, Categoria::C);
    assert_eq!(club.registrar_nuevo_pago(id, 1999, &e), Err(Error::MontoInvalido));
    assert_eq!(club.registrar_nuevo_pago(id, 2000, &e), Ok(()));
    assert_eq!(club.registrar_nuevo_pago(id, 2000, &e), Err(Error::SocioNoPoseePagosSinAcreditar));
    assert_eq!(club.marcar_pago_pagado(0, &e), Err(Error::PagoYaPagado));
    assert_eq!(club.get_primer_pago_sin_acreditar_del_socio_con_id(id).err(), Some(Error::SocioNoPoseePagosSinAcreditar));
    assert_eq!(club.get_primer_pago_sin_acreditar_del_socio_con_id(9).err(), Some(Error::SocioNoRegistrado));
}

#[test]
fn alta_de_socio_y_primera_cuota() {
    let mut club = club_con(3, 10);
    let e = duenia();
    let id = registrar(&mut club, 40, Categoria::A);
    assert_eq!(id, 1);
    assert!(club.existe_socio_con_id(1));
    assert!(!club.existe_socio_con_id(2));
    let pagos = club.get_pagos(&e).unwrap();
    assert_eq!(pagos.len(), 1);
    assert_eq!(pagos[0].id, 0);
    assert_eq!(pagos[0].socio_id, 1);
    assert_eq!(pagos[0].monto, 5000);
    assert_eq!(pagos[0].fecha_de_pago, None);
    // ten days after the clock's instant
    assert_eq!(pagos[0].fecha_de_vencimiento, RELOJ + 10 * DIA);
    assert!(!pagos[0].tiene_bonificacion);
    let id2 = registrar(&mut club, 41, Categoria::C);
    assert_eq!(id2, 2);
    assert_eq!(club.nueva_id(TipoId::Pago), 2);
    assert_eq!(club.nueva_id(TipoId::Socio), 3);
}

#[test]
fn el_duenio_siempre_tiene_permiso() {
    let mut club = club_con(3, 10);
    assert!(club.autorizar_editor(cuenta(2), &duenia()).is_ok());
    assert!(club.desautorizar_editor(cuenta(1), &duenia()).is_ok());
    assert!(club.tengo_permisos_suficientes_para_realizar_operaciones(&duenia()));
    assert!(club.activar_politica_de_autorizacion(&duenia()).is_ok());
    assert!(club.tengo_permisos_suficientes_para_realizar_operaciones(&duenia()));
}

#[test]
fn autorizar_dos_veces_no_repite_editor() {
    let mut club = club_con(3, 10);
    assert!(club.autorizar_editor(cuenta(2), &duenia()).is_ok());
    assert!(club.autorizar_editor(cuenta(2), &duenia()).is_ok());
    assert_eq!(club.editores.len(), 1);
    assert!(contiene(&club.editores, &cuenta(2)));
    assert!(club.desautorizar_editor(cuenta(2), &duenia()).is_ok());
    assert!(!contiene(&club.editores, &cuenta(2)));
    assert!(!club.tengo_permisos_suficientes_para_realizar_operaciones(&Entorno { caller: cuenta(2), ahora: RELOJ }));
}

#[test]
fn una_actualizacion_por_mes() {
    let mut club = club_con(3, 10);
    let _ = registrar(&mut club, 40, Categoria::C);
    // the club was created in June of 1971: not due in June
    assert!(!club.es_momento_de_otra_actualizacion(&duenia_en(RELOJ + DIA)));
    assert_eq!(
        club.actualizacion_mensual(&duenia_en(RELOJ + DIA)),
        Err(Error::NoTranscurrioElTiempoNecesarioDesdeElUltimoLlamado)
    );
    // thirty days later it is July
    let julio = RELOJ + 30 * DIA;
    assert!(club.es_momento_de_otra_actualizacion(&duenia_en(julio)));
    assert_eq!(club.actualizacion_mensual(&duenia_en(julio)), Ok(()));
    assert_eq!(club.fecha_de_la_ultima_actualizacion, julio);
    let pagos = club.get_pagos(&duenia()).unwrap();
    assert_eq!(pagos.len(), 2);
    // the monthly fee falls due at midnight of the tenth of July of 1971
    let diez_de_julio = LocalDateTime::at(julio as i64);
    assert_eq!(diez_de_julio.date().month(), club_sem_rust::fecha::Month::July);
    assert_eq!(pagos[1].fecha_de_vencimiento, (365 + 31 + 28 + 31 + 30 + 31 + 30 + 9) * DIA);
    assert_eq!(pagos[1].monto, 2000);
    // and not again in July
    assert!(!club.es_momento_de_otra_actualizacion(&duenia_en(julio + DIA)));
    assert_eq!(
        club.actualizacion_mensual(&duenia_en(julio + DIA)),
        Err(Error::NoTranscurrioElTiempoNecesarioDesdeElUltimoLlamado)
    );
}

#[test]
fn actualizacion_debida_un_anio_despues_en_el_mismo_mes() {
    let mut club = club_con(3, 10);
    assert!(!club.es_momento_de_otra_actualizacion(&duenia()));
    // the last update a year back, in June of 1970
    club.fecha_de_la_ultima_actualizacion -= 365 * DIA;
    assert!(club.es_momento_de_otra_actualizacion(&duenia()));
    assert_eq!(club.actualizacion_mensual(&duenia()), Ok(()));
    assert_eq!(club.fecha_de_la_ultima_actualizacion, RELOJ);
}

#[test]
fn pago_vencido_sin_permisos() {
    let mut club = club_con(3, 10);
    let _ = registrar(&mut club, 40, Categoria::C);
    assert_eq!(club.pago_esta_vencido(0, &extranio()), Ok(false));
    assert_eq!(club.pago_esta_vencido(1, &extranio()), Err(Error::PagoNoRegistrado));
}

#[test]
fn vencimiento_de_cuotas() {
    let mut club = club_con(3, 10);
    let e = duenia();
    let id = registrar(&mut club, 40, Categoria::C);
    // fee 1 falls due a second before the clock, fee 2 at the clock itself
    assert!(club.crear_cuota_para_socio(id, LocalDateTime::at((RELOJ - 1) as i64), &e).is_ok());
    assert!(club.crear_cuota_para_socio(id, LocalDateTime::at(RELOJ as i64), &e).is_ok());
    assert_eq!(club.pago_esta_vencido(1, &e), Ok(true));
    assert_eq!(club.pago_esta_vencido(2, &e), Ok(false));
    // overdue stays overdue as the clock moves on
    assert_eq!(club.pago_esta_vencido(1, &duenia_en(RELOJ + 5 * DIA)), Ok(true));
    assert_eq!(club.pago_esta_vencido(2, &duenia_en(RELOJ + 1)), Ok(true));
    // a fee paid after it fell due is overdue
    assert_eq!(club.marcar_pago_pagado(1, &e), Ok(()));
    assert_eq!(club.pago_esta_vencido(1, &e), Ok(true));
    // a fee paid when it falls due is not
    assert_eq!(club.marcar_pago_pagado(2, &e), Ok(()));
    assert_eq!(club.pago_esta_vencido(2, &duenia_en(RELOJ + 9 * DIA)), Ok(false));
}

#[test]
fn bonificacion_con_racha_de_uno() {
    let mut club = club_con(1, 10);
    let e = duenia();
    let id = registrar(&mut club, 40, futbol_b());
    // the first fee is not due yet, so it already counts towards the streak
    assert_eq!(club.socio_cumple_las_condiciones_para_obtener_la_bonificacion(id, &e), Ok(true));
    assert!(club.registrar_nuevo_pago(id, 3000, &e).is_ok());
    assert_eq!(club.socio_cumple_las_condiciones_para_obtener_la_bonificacion(id, &e), Ok(true));
    assert!(club.crear_cuota_para_socio(id, LocalDateTime::at((RELOJ + 7 * DIA) as i64), &e).is_ok());
    let pago = club.get_primer_pago_sin_acreditar_del_socio_con_id(id).unwrap();
    assert!(pago.tiene_bonificacion);
    // 3000 less 10%
    assert_eq!(pago.monto, 2700);
    assert!(club.registrar_nuevo_pago(id, 2700, &e).is_ok());
    // discounted fees never come two in a row
    assert_eq!(club.socio_cumple_las_condiciones_para_obtener_la_bonificacion(id, &e), Ok(false));
    assert!(club.crear_cuota_para_socio(id, LocalDateTime::at((RELOJ + 7 * DIA) as i64), &e).is_ok());
    assert_eq!(club.get_primer_pago_sin_acreditar_del_socio_con_id(id).unwrap().monto, 3000);
}

#[test]
fn bonificacion_perdida_por_cuota_vencida() {
    let mut club = club_con(2, 10);
    let e = duenia();
    let id = registrar(&mut club, 40, Categoria::C);
    assert!(club.crear_cuota_para_socio(id, LocalDateTime::at(1000), &e).is_ok());
    assert_eq!(club.socio_cumple_las_condiciones_para_obtener_la_bonificacion(id, &e), Ok(false));
    assert_eq!(club.socio_cumple_las_condiciones_para_obtener_la_bonificacion(7, &e), Err(Error::SocioNoRegistrado));
    assert_eq!(
        club.socio_cumple_las_condiciones_para_obtener_la_bonificacion(id, &extranio()),
        Err(Error::NoSePoseenLosPermisosSuficientes)
    );
}

#[test]
fn racha_de_cero_bonifica_la_primera_cuota() {
    let mut club = club_con(0, 10);
    let id = registrar(&mut club, 40, futbol_b());
    let pago = club.get_primer_pago_sin_acreditar_del_socio_con_id(id).unwrap();
    assert!(pago.tiene_bonificacion);
    assert_eq!(pago.monto, 2700);
}

#[test]
fn descuento_con_porcentaje_recortado() {
    let mut club = club_con(1, 150);
    let e = duenia();
    let id = registrar(&mut club, 40, futbol_b());
    assert!(club.registrar_nuevo_pago(id, 3000, &e).is_ok());
    assert!(club.crear_cuota_para_socio(id, LocalDateTime::at((RELOJ + 7 * DIA) as i64), &e).is_ok());
    // a percentage over 99 is taken as 1
    assert_eq!(club.get_primer_pago_sin_acreditar_del_socio_con_id(id).unwrap().monto, 2970);
}

#[test]
fn datos_de_categoria_se_reemplazan() {
    let mut club = club_con(3, 10);
    let e = duenia();
    assert!(club.cargar_data_categoria(Categoria::C, 2500, vec![Actividad::Tenis], &e).is_ok());
    let d = club.get_data_categoria_datos(2).unwrap();
    assert_eq!(d, (2, 2500, vec![Actividad::Tenis]));
    assert!(club.categoria_tiene_sus_datos_cargados(2));
    assert_eq!(club.get_categoria_datos(2).unwrap().costo_mensual_en_tokens, 2500);
}

#[test]
fn asistencia_con_categoria_sin_datos() {
    let mut club = club_con(3, 10);
    let id = registrar(&mut club, 40, futbol_b());
    club.categorias_data[1] = None;
    // the activity picked needs no category data
    assert_eq!(club.socio_tiene_permitida_la_asistencia_a(id, 0), Ok(true));
    assert_eq!(club.socio_tiene_permitida_la_asistencia_a(id, 1), Err(Error::CategoriaSinData));
}

#[test]
fn busqueda_por_dni() {
    let mut club = club_con(3, 10);
    assert_eq!(club.get_id_socio_con_dni(40), None);
    let _ = registrar(&mut club, 40, Categoria::A);
    let _ = registrar(&mut club, 41, Categoria::A);
    assert_eq!(club.get_id_socio_con_dni(41), Some(2));
    assert!(club.existe_socio_dni(40));
    assert!(!club.existe_socio_dni(42));
}

#[test]
fn quitar_repetidos_consecutivos_deja_uno_de_cada_tramo() {
    assert_eq!(quitar_repetidos_consecutivos(&vec![1, 1, 2, 2, 1]), vec![1, 2, 1]);
    assert_eq!(quitar_repetidos_consecutivos(&vec![]), Vec::<u128>::new());
    assert_eq!(quitar_repetidos_consecutivos(&vec![5, 5, 5]), vec![5]);
}

/// Member 1 (category A) pays its first fee on time; member 2 (category C)
/// has its first fee pending and a second one overdue since 1970.
fn club_para_reportes() -> ClubSemRust {
    let mut club = club_con(3, 10);
    let e = duenia();
    let id1 = registrar(&mut club, 40, Categoria::A);
    let id2 = registrar(&mut club, 41, Categoria::C);
    assert!(club.registrar_nuevo_pago(id1, 5000, &e).is_ok());
    assert!(club.crear_cuota_para_socio(id2, LocalDateTime::at(1000), &e).is_ok());
    club
}

#[test]
fn reporte_de_morosos() {
    let reportes = ReportesClubSemRust::new(club_para_reportes());
    assert_eq!(reportes.verificacion_de_pagos_morosos(&duenia()), Ok(vec![2]));
    assert_eq!(
        reportes.verificacion_de_pagos_morosos(&extranio()),
        Err(ErrorReporte::NoSePoseenLosPermisosSuficientes)
    );
}

#[test]
fn reporte_de_recaudacion() {
    let reportes = ReportesClubSemRust::new(club_para_reportes());
    assert_eq!(reportes.informe_recaudacion_mensual(6, 1971, &duenia()), Ok(vec![5000, 0, 0]));
    assert_eq!(reportes.informe_recaudacion_mensual(1, 1970, &duenia()), Ok(vec![0, 0, 0]));
    assert_eq!(reportes.informe_recaudacion_mensual(13, 1971, &duenia()), Err(ErrorReporte::FechaInvalida));
    assert_eq!(
        reportes.informe_recaudacion_mensual(6, 1971, &extranio()),
        Err(ErrorReporte::NoSePoseenLosPermisosSuficientes)
    );
}

#[test]
fn reporte_de_no_morosos() {
    let reportes = ReportesClubSemRust::new(club_para_reportes());
    assert_eq!(reportes.informe_no_morosos_de_actividad(1, &duenia()), Ok(vec![1, 2]));
    assert_eq!(reportes.informe_no_morosos_de_actividad(0, &duenia()), Ok(vec![1]));
    assert_eq!(reportes.informe_no_morosos_de_actividad(8, &duenia()), Err(ErrorReporte::ActividadInvalida));
    let sin_datos = ReportesClubSemRust::new(ClubSemRust::new(cuenta(1), 3, 10, true, &duenia()));
    assert_eq!(
        sin_datos.informe_no_morosos_de_actividad(1, &duenia()),
        Err(ErrorReporte::NoTodasLasCategoriasTienenData)
    );
}
