use club_sem_rust::cuenta::AccountId;
use club_sem_rust::fecha::{LocalDate, LocalDateTime, LocalTime, Month};
use club_sem_rust::registro::{
    Actividad, Categoria, ClubSemRust, DataPago, DatosPersonalesSocio, Entorno, Error, Socio, TipoId,
};

const AHORA: u64 = 45184555;

fn alice() -> AccountId {
    AccountId::new([1u8; 32])
}

fn bob() -> AccountId {
    AccountId::new([2u8; 32])
}

fn charlie() -> AccountId {
    AccountId::new([3u8; 32])
}

fn como(caller: AccountId) -> Entorno {
    Entorno { caller, ahora: AHORA }
}

/// A club owned by Alice, with a streak of 3 fees and a 10% discount.
fn crear_club_sem_rust() -> ClubSemRust {
    ClubSemRust::new(alice(), 3, 10, true, &como(alice()))
}

/// Loads the data of the three categories, as Alice.
fn crear_y_cargar_categorias(club: &mut ClubSemRust) {
    let e = como(alice());

    let vec_de_actividades_a = vec![
        Actividad::Natacion,
        Actividad::Futbol,
        Actividad::Gimnasio,
        Actividad::Basquet,
        Actividad::Rugby,
        Actividad::Hockey,
        Actividad::Tenis,
        Actividad::Paddle,
    ];
    assert!(club.cargar_data_categoria(Categoria::A, 5000, vec_de_actividades_a.clone(), &e).is_ok());
    let categoria_data_a = club.get_data_categoria_datos(Categoria::A.discriminant());
    assert!(categoria_data_a.is_ok());
    let categoria_data_a = categoria_data_a.unwrap();
    assert_eq!(categoria_data_a.2, vec_de_actividades_a);
    assert_eq!(categoria_data_a.0, Categoria::A.discriminant());
    assert_eq!(categoria_data_a.1, 5000);

    let vec_de_actividades_b = vec![Actividad::Gimnasio];
    let b = Categoria::B { deporte_seleccionado_por_el_usuario: Actividad::default() };
    assert!(club.cargar_data_categoria(b, 3000, vec_de_actividades_b.clone(), &e).is_ok());
    let categoria_data_b = club.get_data_categoria_datos(b.discriminant());
    assert!(categoria_data_b.is_ok());
    let categoria_data_b = categoria_data_b.unwrap();
    assert_eq!(categoria_data_b.2, vec_de_actividades_b);
    assert_eq!(categoria_data_b.0, b.discriminant());
    assert_eq!(categoria_data_b.1, 3000);

    let vec_de_actividades_c = vec![Actividad::Gimnasio];
    assert!(club.cargar_data_categoria(Categoria::C, 2000, vec_de_actividades_c.clone(), &e).is_ok());
    let categoria_data_c = club.get_data_categoria_datos(Categoria::C.discriminant());
    assert!(categoria_data_c.is_ok());
    let categoria_data_c = categoria_data_c.unwrap();
    assert_eq!(categoria_data_c.2, vec_de_actividades_c);
    assert_eq!(categoria_data_c.0, Categoria::C.discriminant());
    assert_eq!(categoria_data_c.1, 2000);

    assert!(club.todas_las_categorias_tienen_sus_datas_cargadas());
}

fn futbol_b() -> Categoria {
    Categoria::B { deporte_seleccionado_por_el_usuario: Actividad::Futbol }
}

#[test]
fn test_get_ids_categorias() {
    let club = crear_club_sem_rust();
    let mut ids = Vec::new();
    for i in 0..club.cant_categorias() {
        ids.push(i);
    }
    assert_eq!(ids, club.get_ids_categorias());
}

#[test]
fn test_get_ids_actividades() {
    let club = crear_club_sem_rust();
    let mut ids = Vec::new();
    for i in 0..club.cant_actividades() {
        ids.push(i);
    }
    assert_eq!(ids, club.get_ids_actividades());
}

#[test]
fn test_existe_actividad_con_id() {
    let club = crear_club_sem_rust();
    assert!(club.existe_actividad_con_id(Actividad::Basquet as u32));
    assert!(club.existe_actividad_con_id(Actividad::Natacion as u32));
    assert!(club.existe_actividad_con_id(Actividad::Futbol as u32));
    assert!(!club.existe_actividad_con_id(800));
}

#[test]
fn test_existe_categoria_con_id() {
    let club = crear_club_sem_rust();
    assert!(club.existe_categoria_con_id(Categoria::A.discriminant()));
    assert!(club.existe_categoria_con_id(
        Categoria::B { deporte_seleccionado_por_el_usuario: Actividad::default() }.discriminant()
    ));
    assert!(club.existe_categoria_con_id(Categoria::C.discriminant()));
    assert!(!club.existe_categoria_con_id(800));
}

#[test]
fn test_discriminant() {
    assert_eq!(Categoria::A.discriminant(), 0);
    assert_eq!(Categoria::B { deporte_seleccionado_por_el_usuario: Actividad::default() }.discriminant(), 1);
    assert_eq!(Categoria::C.discriminant(), 2);
}

#[test]
fn test_creacion_club_sem_rust() {
    let _club = crear_club_sem_rust();
}

#[test]
fn test_soy_duenio_siendo_duenio() {
    let club = crear_club_sem_rust();
    assert!(club.soy_duenio(&como(alice())));
}

#[test]
fn test_autorizar_editor_y_soy_duenio_siendo_staff() {
    let mut club = crear_club_sem_rust();
    let staff = bob();
    assert!(club.autorizar_editor(staff, &como(alice())).is_ok());
    assert!(!club.soy_duenio(&como(staff)));
    assert!(club.autorizar_editor(charlie(), &como(staff)).is_err());
}

#[test]
fn test_soy_duenio_siendo_cliente() {
    let club = crear_club_sem_rust();
    assert!(!club.soy_duenio(&como(charlie())));
}

#[test]
fn tengo_permisos_suficientes_para_realizar_operaciones_siendo_duenio() {
    let club = crear_club_sem_rust();
    assert!(club.tengo_permisos_suficientes_para_realizar_operaciones(&como(alice())));
}

#[test]
fn tengo_permisos_suficientes_para_realizar_operaciones_siendo_staff() {
    let mut club = crear_club_sem_rust();
    let staff = bob();
    assert!(club.autorizar_editor(staff, &como(alice())).is_ok());
    assert!(club.tengo_permisos_suficientes_para_realizar_operaciones(&como(staff)));
}

#[test]
fn test_tengo_permisos_suficientes_para_realizar_operaciones_siendo_cliente_con_politica_de_autorizacion_activada_y_desactivada(
) {
    let mut club = crear_club_sem_rust();
    let duenio = alice();
    let staff = bob();
    let cliente = charlie();
    assert!(club.autorizar_editor(staff, &como(duenio)).is_ok());

    assert!(club.tengo_permisos_suficientes_para_realizar_operaciones(&como(staff)));
    assert!(!club.tengo_permisos_suficientes_para_realizar_operaciones(&como(cliente)));

    assert!(club.desactivar_politica_de_autorizacion(&como(duenio)).is_ok());

    assert!(club.tengo_permisos_suficientes_para_realizar_operaciones(&como(staff)));
    assert!(club.tengo_permisos_suficientes_para_realizar_operaciones(&como(cliente)));

    assert!(club.activar_politica_de_autorizacion(&como(duenio)).is_ok());

    assert!(club.tengo_permisos_suficientes_para_realizar_operaciones(&como(staff)));
    assert!(!club.tengo_permisos_suficientes_para_realizar_operaciones(&como(cliente)));
}

#[test]
fn test_get_cantidad_de_pagos_necesarios_para_bonificacion() {
    let mut club = crear_club_sem_rust();
    assert_eq!(club.get_cant_pagos_consecutivos_sin_atrasos_necesarios_para_descuento(), 3);
}

#[test]
fn test_cargar_data_categoria_y_get_data_categoria() {
    let mut club = crear_club_sem_rust();
    crear_y_cargar_categorias(&mut club);
}

#[test]
fn test_existe_socio_dni_y_registrar_nuevo_socio() {
    let mut club = crear_club_sem_rust();
    crear_y_cargar_categorias(&mut club);
    let dni = 12;
    assert!(!club.existe_socio_dni(dni));
    assert!(club
        .registrar_nuevo_socio("charlie".to_string(), "Ricciardi".to_string(), dni, futbol_b(), &como(alice()))
        .is_ok());
    assert!(club.existe_socio_dni(dni));
}

#[test]
fn test_tengo_permisos_suficientes_para_realizar_operaciones_siendo_cliente() {
    let club = crear_club_sem_rust();
    assert!(!club.tengo_permisos_suficientes_para_realizar_operaciones(&como(charlie())))
}

#[test]
fn test_desautorizar_editor() {
    let duenio = alice();
    let mut club = ClubSemRust::new(duenio, 3, 10, true, &como(duenio));
    let staff = bob();

    assert!(!club.tengo_permisos_suficientes_para_realizar_operaciones(&como(staff)));
    assert!(club.autorizar_editor(staff, &como(duenio)).is_ok());
    assert!(club.tengo_permisos_suficientes_para_realizar_operaciones(&como(staff)));
    assert!(club.desautorizar_editor(staff, &como(duenio)).is_ok());
    assert!(!club.tengo_permisos_suficientes_para_realizar_operaciones(&como(staff)));
}

#[test]
fn test_set_cant_pagos_consecutivos_sin_atrasos_necesarios_para_descuento() {
    let mut club = crear_club_sem_rust();
    assert!(club.set_cant_pagos_consecutivos_sin_atrasos_necesarios_para_descuento(5, &como(alice())).is_ok());
    assert_eq!(club.get_cant_pagos_consecutivos_sin_atrasos_necesarios_para_descuento(), 5);
}

#[test]
fn test_actualizacion_mensual() {
    let mut club = crear_club_sem_rust();
    crear_y_cargar_categorias(&mut club);
    assert_eq!(
        club.actualizacion_mensual(&como(alice())).err().unwrap(),
        Error::NoTranscurrioElTiempoNecesarioDesdeElUltimoLlamado
    );
    club.fecha_de_la_ultima_actualizacion -= 2678400;
    assert!(club.actualizacion_mensual(&como(alice())).is_ok());
}

#[test]
fn test_get_data_pagos() {
    let mut club = crear_club_sem_rust();
    crear_y_cargar_categorias(&mut club);
    let e = como(alice());
    let dni1 = 90;
    let dni2 = 30;
    assert!(club.registrar_nuevo_socio("charlie".to_string(), "Ricciardi".to_string(), dni1, futbol_b(), &e).is_ok());
    assert!(club.registrar_nuevo_socio("charlie".to_string(), "Perri".to_string(), dni2, Categoria::C, &e).is_ok());
    let id1 = club.get_id_socio_con_dni(dni1).unwrap();
    let id2 = club.get_id_socio_con_dni(dni2).unwrap();
    let pagos_totales = club.get_data_pagos(&e);
    let mut pagos_totales_manual = Vec::new();
    pagos_totales_manual.push(club.get_data_pagos_del_socio_con_id(id1, &e).unwrap().pop().unwrap());
    pagos_totales_manual.push(club.get_data_pagos_del_socio_con_id(id2, &e).unwrap().pop().unwrap());
    assert_eq!(pagos_totales.unwrap(), pagos_totales_manual);
}

#[test]
fn test_get_data_pagos_del_socio_con_id() {
    let mut club = crear_club_sem_rust();
    crear_y_cargar_categorias(&mut club);
    let e = como(alice());
    let dni1 = 90;
    assert!(club.registrar_nuevo_socio("charlie".to_string(), "Ricciardi".to_string(), dni1, futbol_b(), &e).is_ok());
    let id1 = club.get_id_socio_con_dni(dni1).unwrap();
    let pago_de_charlie = club.get_data_pagos_del_socio_con_id(id1, &e).unwrap();
    let pago_de_charlie_manual = club.get_data_pagos(&e).unwrap();
    assert_eq!(pago_de_charlie, pago_de_charlie_manual)
}

#[test]
fn test_set_duenio() {
    let mut club = crear_club_sem_rust();
    crear_y_cargar_categorias(&mut club);
    let nuevo_duenio = bob();
    let _ = club.set_duenio(nuevo_duenio, &como(alice()));
    assert!(club.soy_duenio(&como(nuevo_duenio)));
}

#[test]
fn test_get_data_pagos_del_mes_y_anio() {
    let mut club = crear_club_sem_rust();
    crear_y_cargar_categorias(&mut club);
    let e = como(alice());

    let mes_y_anio_de_venicimiento_buscados =
        LocalDateTime::new(LocalDate::ymd(2021, Month::October, 10).unwrap(), LocalTime::midnight());
    let fecha_de_vencimiento_no_buscada = LocalDateTime::now(AHORA);

    let dni1 = 90;
    assert!(club.registrar_nuevo_socio("charlie".to_string(), "Ricciardi".to_string(), dni1, Categoria::A, &e).is_ok());
    let id1 = club.get_id_socio_con_dni(dni1).unwrap();
    assert!(club.crear_cuota_para_socio(id1, mes_y_anio_de_venicimiento_buscados, &e).is_ok());
    assert!(club.crear_cuota_para_socio(id1, fecha_de_vencimiento_no_buscada, &e).is_ok());

    let dni2 = 57;
    assert!(club.registrar_nuevo_socio("charlie".to_string(), "Ricciardi".to_string(), dni2, futbol_b(), &e).is_ok());
    let id2 = club.get_id_socio_con_dni(dni2).unwrap();
    assert!(club.crear_cuota_para_socio(id2, mes_y_anio_de_venicimiento_buscados, &e).is_ok());
    assert!(club.crear_cuota_para_socio(id2, fecha_de_vencimiento_no_buscada, &e).is_ok());

    let pagos_del_club = club.get_pagos(&e).unwrap();
    let pagos_anio_y_mes = club.get_data_pagos_del_mes_y_anio(10, 2021, &e).unwrap();
    let esperados: Vec<DataPago> = pagos_del_club
        .into_iter()
        .filter(|p| {
            LocalDateTime::at(p.fecha_de_vencimiento as i64).date().month()
                == mes_y_anio_de_venicimiento_buscados.date().month()
                && LocalDateTime::at(p.fecha_de_vencimiento as i64).date().year()
                    == mes_y_anio_de_venicimiento_buscados.date().year()
        })
        .map(|d| (d.id, d.socio_id, d.fecha_de_pago, d.fecha_de_vencimiento, d.monto, d.tiene_bonificacion))
        .collect();
    assert_eq!(pagos_anio_y_mes, esperados);
}

#[test]
fn test_get_data_primer_pago_sin_acreditar_del_socio_con_id_y_registrar_nuevo_pago() {
    let mut club = crear_club_sem_rust();
    crear_y_cargar_categorias(&mut club);
    let e = como(alice());

    let dni1 = 75;
    assert!(club.registrar_nuevo_socio("charlie".to_string(), "Ricciardi".to_string(), dni1, futbol_b(), &e).is_ok());
    let id1 = club.get_id_socio_con_dni(dni1).unwrap();

    let pago = club.get_data_primer_pago_sin_acreditar_del_socio_con_id(id1, &e);
    assert!(pago.is_ok());
    let pago = pago.unwrap();
    let pagos_del_usuario_originales = vec![pago.clone()];
    assert_eq!(club.get_data_pagos_del_socio_con_id(id1, &e).unwrap(), pagos_del_usuario_originales);
    assert!(club.registrar_nuevo_pago(id1, pago.4, &e).is_ok());
    assert_ne!(club.get_data_pagos_del_socio_con_id(id1, &e).unwrap(), pagos_del_usuario_originales);

    assert_eq!(
        club.get_data_primer_pago_sin_acreditar_del_socio_con_id(id1, &e).err().unwrap(),
        Error::SocioNoPoseePagosSinAcreditar
    );

    let pagos = club.get_data_pagos_del_socio_con_id(id1, &e);
    assert!(pagos.is_ok());
    let pagos = pagos.unwrap();
    assert_eq!(pagos.len(), 1);
    let pago = &pagos[0];
    assert!(pago.2.is_some());
}

#[test]
fn test_crear_cuota_para_socio() {
    let mut club = crear_club_sem_rust();
    crear_y_cargar_categorias(&mut club);
    let e = como(alice());
    let dni = 8;
    let _ = club.registrar_nuevo_socio("charlie".to_string(), "Ricciardi".to_string(), dni, Categoria::C, &e);
    let id1 = club.get_id_socio_con_dni(dni).unwrap();

    let fecha_de_vencimiento = LocalDateTime::now(AHORA).to_instant().seconds() + 604800;
    assert!(club.crear_cuota_para_socio(id1, LocalDateTime::at(fecha_de_vencimiento as i64), &e).is_ok());

    let pagos = club.get_pagos_del_socio_con_id(id1, &e);
    assert!(pagos.is_ok());
    let pagos = pagos.unwrap();
    assert_eq!(pagos.len(), 2);
    let _pago0 = &pagos[0];
    let pago1 = &pagos[1];

    assert_eq!(pago1.id, 1);
    assert_eq!(pago1.socio_id, 1);
    assert!(pago1.fecha_de_pago.is_none());
    assert_eq!(pago1.fecha_de_vencimiento, fecha_de_vencimiento as u64);
    assert!(!pago1.tiene_bonificacion);
    let monto = club.get_categoria_datos(Categoria::C.discriminant()).unwrap().costo_mensual_en_tokens;
    assert_eq!(pago1.monto, monto);
}

#[test]
fn test_socio_cumple_las_condiciones_para_obtener_la_bonificacion() {
    let mut club = crear_club_sem_rust();
    crear_y_cargar_categorias(&mut club);
    let e = como(alice());
    assert_eq!(club.get_cant_pagos_consecutivos_sin_atrasos_necesarios_para_descuento(), 3);
    assert_eq!(club.pagos.len(), 0);

    let dni = 75;
    assert!(club.registrar_nuevo_socio("charlie".to_string(), "Ricciardi".to_string(), dni, futbol_b(), &e).is_ok());
    let socio_id = club.get_id_socio_con_dni(dni).unwrap();
    assert_eq!(club.pagos.len(), 1);

    assert!(!club.socio_cumple_las_condiciones_para_obtener_la_bonificacion(socio_id, &e).unwrap());

    let pago = club.get_primer_pago_sin_acreditar_del_socio_con_id(socio_id).unwrap();
    assert!(!pago.tiene_bonificacion);
    assert!(!club.pago_esta_vencido(pago.id, &e).unwrap());
    assert!(club.registrar_nuevo_pago(socio_id, pago.monto, &e).is_ok());
    assert!(!club.pago_esta_vencido(pago.id, &e).unwrap());

    assert!(!club.socio_cumple_las_condiciones_para_obtener_la_bonificacion(socio_id, &e).unwrap());

    let fecha_de_vencimiento = LocalDateTime::now(AHORA).to_instant().seconds() + 604800;
    assert!(club.crear_cuota_para_socio(socio_id, LocalDateTime::at(fecha_de_vencimiento as i64), &e).is_ok());
    assert_eq!(club.pagos.len(), 2);
    let pago = club.get_primer_pago_sin_acreditar_del_socio_con_id(socio_id).unwrap();
    assert!(!pago.tiene_bonificacion);
    assert!(club.registrar_nuevo_pago(socio_id, pago.monto, &e).is_ok());
    assert!(!club.pago_esta_vencido(pago.id, &e).unwrap());

    assert!(!club.socio_cumple_las_condiciones_para_obtener_la_bonificacion(socio_id, &e).unwrap());

    let fecha_de_vencimiento = LocalDateTime::now(AHORA).to_instant().seconds() + 604800;
    assert!(club.crear_cuota_para_socio(socio_id, LocalDateTime::at(fecha_de_vencimiento as i64), &e).is_ok());
    assert_eq!(club.pagos.len(), 3);
    let pago = club.get_primer_pago_sin_acreditar_del_socio_con_id(socio_id).unwrap();
    assert!(!pago.tiene_bonificacion);
    assert!(!club.pago_esta_vencido(pago.id, &e).unwrap());
    assert!(club.registrar_nuevo_pago(socio_id, pago.monto, &e).is_ok());
    assert!(!club.pago_esta_vencido(pago.id, &e).unwrap());

    assert!(club.socio_cumple_las_condiciones_para_obtener_la_bonificacion(socio_id, &e).unwrap());

    let fecha_de_vencimiento = LocalDateTime::now(AHORA).to_instant().seconds() + 604800;
    assert!(club.crear_cuota_para_socio(socio_id, LocalDateTime::at(fecha_de_vencimiento as i64), &e).is_ok());
    assert_eq!(club.pagos.len(), 4);
    let pago = club.get_primer_pago_sin_acreditar_del_socio_con_id(socio_id).unwrap();
    assert!(pago.tiene_bonificacion);
    assert!(!club.pago_esta_vencido(pago.id, &e).unwrap());
    assert!(club.registrar_nuevo_pago(socio_id, pago.monto, &e).is_ok());
    assert!(!club.pago_esta_vencido(pago.id, &e).unwrap());

    assert!(!club.socio_cumple_las_condiciones_para_obtener_la_bonificacion(socio_id, &e).unwrap());
}

#[test]
fn test_socio_tiene_permitida_la_asistencia_a_con_categoria_a() {
    let mut club = crear_club_sem_rust();
    crear_y_cargar_categorias(&mut club);
    let dni = 47;
    assert!(club
        .registrar_nuevo_socio("charlie".to_string(), "Ricciardi".to_string(), dni, Categoria::A, &como(alice()))
        .is_ok());
    let socio_id = club.get_id_socio_con_dni(dni).unwrap();
    assert!(club.socio_tiene_permitida_la_asistencia_a(socio_id, Actividad::Gimnasio as u32).unwrap());
    assert!(club.socio_tiene_permitida_la_asistencia_a(socio_id, Actividad::Futbol as u32).unwrap());
    assert!(club.socio_tiene_permitida_la_asistencia_a(socio_id, Actividad::Basquet as u32).unwrap());
    assert!(club.socio_tiene_permitida_la_asistencia_a(socio_id, Actividad::Natacion as u32).unwrap());
    assert!(club.socio_tiene_permitida_la_asistencia_a(socio_id, Actividad::Hockey as u32).unwrap());
    assert!(club.socio_tiene_permitida_la_asistencia_a(socio_id, Actividad::Paddle as u32).unwrap());
    assert!(club.socio_tiene_permitida_la_asistencia_a(socio_id, Actividad::Rugby as u32).unwrap());
    assert!(club.socio_tiene_permitida_la_asistencia_a(socio_id, Actividad::Tenis as u32).unwrap());
}

#[test]
fn test_socio_tiene_permitida_la_asistencia_a_con_categoria_b() {
    let mut club = crear_club_sem_rust();
    crear_y_cargar_categorias(&mut club);
    let dni = 47;
    assert!(club
        .registrar_nuevo_socio("charlie".to_string(), "Ricciardi".to_string(), dni, futbol_b(), &como(alice()))
        .is_ok());
    let socio_id = club.get_id_socio_con_dni(dni).unwrap();
    assert!(club.socio_tiene_permitida_la_asistencia_a(socio_id, Actividad::Gimnasio as u32).unwrap());
    assert!(club.socio_tiene_permitida_la_asistencia_a(socio_id, Actividad::Futbol as u32).unwrap());
    assert!(!club.socio_tiene_permitida_la_asistencia_a(socio_id, Actividad::Basquet as u32).unwrap());
    assert!(!club.socio_tiene_permitida_la_asistencia_a(socio_id, Actividad::Natacion as u32).unwrap());
    assert!(!club.socio_tiene_permitida_la_asistencia_a(socio_id, Actividad::Hockey as u32).unwrap());
    assert!(!club.socio_tiene_permitida_la_asistencia_a(socio_id, Actividad::Paddle as u32).unwrap());
    assert!(!club.socio_tiene_permitida_la_asistencia_a(socio_id, Actividad::Rugby as u32).unwrap());
    assert!(!club.socio_tiene_permitida_la_asistencia_a(socio_id, Actividad::Tenis as u32).unwrap());
}

#[test]
fn test_socio_tiene_permitida_la_asistencia_a_con_categoria_c() {
    let mut club = crear_club_sem_rust();
    crear_y_cargar_categorias(&mut club);
    let dni = 47;
    assert!(club
        .registrar_nuevo_socio("charlie".to_string(), "Ricciardi".to_string(), dni, Categoria::C, &como(alice()))
        .is_ok());
    let socio_id = club.get_id_socio_con_dni(dni).unwrap();
    assert!(club.socio_tiene_permitida_la_asistencia_a(socio_id, Actividad::Gimnasio as u32).unwrap());
    assert!(!club.socio_tiene_permitida_la_asistencia_a(socio_id, Actividad::Futbol as u32).unwrap());
    assert!(!club.socio_tiene_permitida_la_asistencia_a(socio_id, Actividad::Basquet as u32).unwrap());
    assert!(!club.socio_tiene_permitida_la_asistencia_a(socio_id, Actividad::Natacion as u32).unwrap());
    assert!(!club.socio_tiene_permitida_la_asistencia_a(socio_id, Actividad::Hockey as u32).unwrap());
    assert!(!club.socio_tiene_permitida_la_asistencia_a(socio_id, Actividad::Paddle as u32).unwrap());
    assert!(!club.socio_tiene_permitida_la_asistencia_a(socio_id, Actividad::Rugby as u32).unwrap());
    assert!(!club.socio_tiene_permitida_la_asistencia_a(socio_id, Actividad::Tenis as u32).unwrap());
}

#[test]
fn test_get_data_socio_con_id() {
    let mut club = crear_club_sem_rust();
    crear_y_cargar_categorias(&mut club);
    let e = como(alice());
    let dni1 = 90;
    let dni2 = 30;
    assert!(club.registrar_nuevo_socio("charlie".to_string(), "Ricciardi".to_string(), dni1, Categoria::A, &e).is_ok());
    assert!(club.registrar_nuevo_socio("charlie".to_string(), "Perri".to_string(), dni2, Categoria::C, &e).is_ok());
    let id1 = club.get_id_socio_con_dni(dni1).unwrap();
    let id2 = club.get_id_socio_con_dni(dni2).unwrap();

    let data_socio1 = club.get_data_socio_con_id(id1, &e);
    assert!(data_socio1.is_ok());
    let data_socio1 = data_socio1.unwrap();

    let data_socio2 = club.get_data_socio_con_id(id2, &e);
    assert!(data_socio2.is_ok());
    let data_socio2 = data_socio2.unwrap();

    assert_eq!(data_socio1, ("charlie".to_string(), "Ricciardi".to_string(), dni1, id1, Categoria::A));
    assert_eq!(data_socio2, ("charlie".to_string(), "Perri".to_string(), dni2, id2, Categoria::C));
}

#[test]
fn test_construir_fecha_midnight() {
    assert!(ClubSemRust::construir_fecha_midnight(2000, 90, 8).is_err());
    assert!(ClubSemRust::construir_fecha_midnight(2000, 9, 80).is_err());
    assert_eq!(
        ClubSemRust::construir_fecha_midnight(2000, 4, 1).unwrap(),
        LocalDateTime::new(LocalDate::ymd(2000, Month::from_one(4).unwrap(), 1).unwrap(), LocalTime::midnight())
    );
}

#[test]
fn test_get_actividad_id() {
    let club = crear_club_sem_rust();
    assert_eq!(club.get_actividad_id(Actividad::Natacion), Actividad::Natacion as u32)
}

#[test]
fn test_get_categoria_id() {
    let club = crear_club_sem_rust();
    assert_eq!(club.get_categoria_id(Categoria::C), Categoria::C.discriminant())
}

#[test]
fn test_registrar_nuevo_pago_ajecuta_actualizacion_mensual_y_da_ok() {
    let mut club = crear_club_sem_rust();
    crear_y_cargar_categorias(&mut club);
    let e = como(alice());
    club.fecha_de_la_ultima_actualizacion -= 2678400;

    let dni = 75;
    assert!(club.registrar_nuevo_socio("charlie".to_string(), "Ricciardi".to_string(), dni, futbol_b(), &e).is_ok());
    let socio_id = club.get_id_socio_con_dni(dni).unwrap();

    let fecha_de_vencimiento = LocalDateTime::now(AHORA).to_instant().seconds() + 604800;
    assert!(club.crear_cuota_para_socio(socio_id, LocalDateTime::at(fecha_de_vencimiento as i64), &e).is_ok());
    let pago = club.get_primer_pago_sin_acreditar_del_socio_con_id(socio_id).unwrap();
    assert!(club.registrar_nuevo_pago(socio_id, pago.monto, &e).is_ok());
}

#[test]
fn test_actualizacion_mensual_falla_en_crear_cuota_para_socio() {
    let mut club = crear_club_sem_rust();
    let e = como(alice());
    assert_eq!(
        club.registrar_nuevo_socio("charlie".to_string(), "Ricciardi".to_string(), 50, Categoria::C, &e)
            .err()
            .unwrap(),
        Error::CategoriaSinData
    );

    club.fecha_de_la_ultima_actualizacion -= 2678400;
    assert!(club.actualizacion_mensual(&e).is_ok());
    assert_eq!(club.get_pagos(&e).unwrap().len(), 0);

    let info_personal_del_socio =
        DatosPersonalesSocio { nombre: "charlie".to_string(), apellido: "Perri".to_string(), dni: 90 };
    let socio = Socio {
        id: club.nueva_id(TipoId::Socio),
        categoria: Categoria::C,
        datos_personales: info_personal_del_socio,
    };
    club.socios.push(socio);

    club.fecha_de_la_ultima_actualizacion -= 2678400;
    assert_eq!(club.actualizacion_mensual(&e).err().unwrap(), Error::CategoriaSinData)
}
