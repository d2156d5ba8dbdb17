//! Properties of the club that span several operations: who may operate,
//! how often the monthly update runs, when a fee is overdue, when a member
//! earns the discount and what a fee costs.

use vstd::prelude::*;
use crate::cuenta::AccountId;
use crate::fecha::{
    instante_de, instante_menor, ley_instante_de_monotono, ley_segundos_de_instante, limite_segundos,
    segundos_de,
};
use crate::registro::{
    pago_cumplido, pagos_del_socio, racha, vencido_spec, Categoria, ClubSemRust, DatosCategoria, Pago,
    Socio,
};
use crate::reportes::sin_repetidos_consecutivos;

verus! {

/// Law: the owner of the club may always operate, whatever the policy and
/// whoever the editors are.
pub proof fn ley_el_duenio_siempre_tiene_permiso(club: ClubSemRust)
    ensures
        club.tiene_permiso_spec(club.duenio_account_id),
{
}

/// Law: once the owner authorizes `editor` (the editors become the old ones
/// and `editor`, the policy and the owner unchanged), `editor` may operate.
pub proof fn ley_editor_autorizado_tiene_permiso(antes: ClubSemRust, despues: ClubSemRust, editor: AccountId)
    requires
        forall|a: AccountId| despues.es_editor_spec(a) == (antes.es_editor_spec(a) || a == editor),
        despues.politica_de_autorizacion_activada == antes.politica_de_autorizacion_activada,
        despues.duenio_account_id == antes.duenio_account_id,
    ensures
        despues.tiene_permiso_spec(editor),
{
    assert(despues.es_editor_spec(editor));
}

/// Law: once the owner removes `editor` from the editors (the policy and the
/// owner unchanged), `editor` may operate only when the policy is off or it is
/// the owner.
pub proof fn ley_editor_desautorizado_pierde_permiso(
    antes: ClubSemRust,
    despues: ClubSemRust,
    editor: AccountId,
)
    requires
        forall|a: AccountId| despues.es_editor_spec(a) == (antes.es_editor_spec(a) && a != editor),
        despues.politica_de_autorizacion_activada == antes.politica_de_autorizacion_activada,
        despues.duenio_account_id == antes.duenio_account_id,
    ensures
        despues.tiene_permiso_spec(editor) <==> (!despues.politica_de_autorizacion_activada
            || editor == despues.duenio_account_id),
{
    assert(!despues.es_editor_spec(editor));
}

/// Law: a club whose last monthly update was recorded at clock `t` (as a new
/// club records its creation and a complete update records itself) is not
/// due for another update at any clock `t2` of the same month of the same year.
pub proof fn ley_sin_actualizacion_en_el_mes_registrado(club: ClubSemRust, t: u64, t2: u64)
    requires
        t <= limite_segundos(),
        t2 <= limite_segundos(),
        club.fecha_de_la_ultima_actualizacion == segundos_de(instante_de(t as i64)) as u64,
        instante_de(t2 as i64).fecha.mes == instante_de(t as i64).fecha.mes,
        instante_de(t2 as i64).fecha.anio == instante_de(t as i64).fecha.anio,
    ensures
        !club.es_momento_spec(t2),
{
    ley_segundos_de_instante(t as i64);
}

/// Law: a club whose last monthly update was recorded at clock `t` is due
/// for another one at any clock `t2` of another month or another year.
pub proof fn ley_actualizacion_debida_en_otro_mes(club: ClubSemRust, t: u64, t2: u64)
    requires
        t <= limite_segundos(),
        club.fecha_de_la_ultima_actualizacion == segundos_de(instante_de(t as i64)) as u64,
        instante_de(t2 as i64).fecha.mes != instante_de(t as i64).fecha.mes
            || instante_de(t2 as i64).fecha.anio != instante_de(t as i64).fecha.anio,
    ensures
        club.es_momento_spec(t2),
{
    ley_segundos_de_instante(t as i64);
}

/// Law: the monthly update runs at most once a month. After an update at
/// clock `t` that reached every member, no update is due at any clock `t2`
/// of the same month of the same year.
pub proof fn ley_actualizacion_una_vez_por_mes(antes: ClubSemRust, despues: ClubSemRust, t: u64, t2: u64)
    requires
        antes.es_momento_spec(t),
        antes.primer_socio_sin_datos() == antes.socios@.len(),
        despues.fecha_de_la_ultima_actualizacion == antes.fecha_tras_actualizacion(t),
        t <= limite_segundos(),
        t2 <= limite_segundos(),
        instante_de(t2 as i64).fecha.mes == instante_de(t as i64).fecha.mes,
        instante_de(t2 as i64).fecha.anio == instante_de(t as i64).fecha.anio,
    ensures
        !despues.es_momento_spec(t2),
{
    ley_sin_actualizacion_en_el_mes_registrado(despues, t, t2);
}

/// Law: an unpaid fee is overdue exactly when the clock has passed the
/// second at which it falls due; a paid one, when it was paid after it.
pub proof fn ley_pago_vencido(p: Pago, ahora: u64)
    requires
        p.fecha_de_vencimiento <= limite_segundos(),
        ahora <= limite_segundos(),
    ensures
        p.fecha_de_pago is None ==> (vencido_spec(p, ahora) <==> p.fecha_de_vencimiento < ahora),
        p.fecha_de_pago matches Some(f) ==> (vencido_spec(p, ahora) <==> p.fecha_de_vencimiento < f),
{
    ley_instante_de_monotono(p.fecha_de_vencimiento as i64, ahora as i64);
}

/// Law: a fee that is overdue at one instant stays overdue at every later one.
pub proof fn ley_vencido_persiste(p: Pago, ahora: u64, despues: u64)
    requires
        p.fecha_de_vencimiento <= limite_segundos(),
        ahora <= despues <= limite_segundos(),
        vencido_spec(p, ahora),
    ensures
        vencido_spec(p, despues),
{
    ley_pago_vencido(p, ahora);
    ley_pago_vencido(p, despues);
}

/// The streak of `pagos` reaches `k` exactly when its latest `k` fees all count.
proof fn lema_racha_alcanza(pagos: Seq<Pago>, ahora: u64, k: nat)
    ensures
        racha(pagos, ahora) >= k <==> (k <= pagos.len() && forall|i: int|
            pagos.len() - k <= i < pagos.len() ==> pago_cumplido(#[trigger] pagos[i], ahora)),
    decreases pagos.len(),
{
    if k > 0 && pagos.len() > 0 {
        let pre = pagos.drop_last();
        lema_racha_alcanza(pre, ahora, (k - 1) as nat);
        if racha(pagos, ahora) >= k {
            assert forall|i: int| pagos.len() - k <= i < pagos.len() implies pago_cumplido(
                #[trigger] pagos[i],
                ahora,
            ) by {
                if i < pagos.len() - 1 {
                    assert(pre[i] == pagos[i]);
                }
            }
        }
        if k <= pagos.len() && forall|i: int|
            pagos.len() - k <= i < pagos.len() ==> pago_cumplido(#[trigger] pagos[i], ahora) {
            assert(pago_cumplido(pagos[pagos.len() - 1], ahora));
            assert forall|i: int| pre.len() - (k - 1) <= i < pre.len() implies pago_cumplido(
                #[trigger] pre[i],
                ahora,
            ) by {
                assert(pre[i] == pagos[i]);
            }
        }
    }
}

/// Law: with a streak length `n` of at least one, a member earns the
/// discount on its next fee exactly when it has at least `n` fees and its
/// latest `n` fees all carry no discount and are not overdue.
pub proof fn ley_bonificacion_por_racha(club: ClubSemRust, socio_id: u128, ahora: u64)
    requires
        club.cant_pagos_consecutivos_sin_atrasos_necesarios_para_descuento >= 1,
    ensures
        ({
            let n = club.cant_pagos_consecutivos_sin_atrasos_necesarios_para_descuento as int;
            let s = pagos_del_socio(club.pagos@, socio_id);
            club.cumple_spec(socio_id, ahora) <==> (n <= s.len() && forall|i: int|
                s.len() - n <= i < s.len() ==> pago_cumplido(#[trigger] s[i], ahora))
        }),
{
    lema_racha_alcanza(
        pagos_del_socio(club.pagos@, socio_id),
        ahora,
        club.cant_pagos_consecutivos_sin_atrasos_necesarios_para_descuento as nat,
    );
}

/// Law: with a streak length of at least one, a member whose latest fee
/// carries the discount does not earn it on its next fee: discounted fees
/// never come two in a row.
pub proof fn ley_bonificacion_no_consecutiva(club: ClubSemRust, socio_id: u128, ahora: u64)
    requires
        club.cant_pagos_consecutivos_sin_atrasos_necesarios_para_descuento >= 1,
        pagos_del_socio(club.pagos@, socio_id).len() > 0,
        pagos_del_socio(club.pagos@, socio_id).last().tiene_bonificacion,
    ensures
        !club.cumple_spec(socio_id, ahora),
{
}

/// Law: the next fee of a member never exceeds the monthly fee of its
/// category, and equals it when the member does not earn the discount.
pub proof fn ley_monto_de_la_cuota(club: ClubSemRust, socio_id: u128, ahora: u64)
    requires
        club.wf(),
        club.existe_socio_spec(socio_id),
        club.tiene_datos_spec(club.socio_spec(socio_id).categoria.id_spec()),
    ensures
        ({
            let c = club.costo_spec(club.socio_spec(socio_id).categoria.id_spec());
            &&& 0 <= club.monto_spec(socio_id, ahora) <= c
            &&& !club.cumple_spec(socio_id, ahora) ==> club.monto_spec(socio_id, ahora) == c
        }),
{
    let c = club.costo_spec(club.socio_spec(socio_id).categoria.id_spec());
    let p = club.porcentaje_de_descuento_por_bonificacion;
    assert(0 <= c * p / 100 <= c) by (nonlinear_arith)
        requires
            p <= 99,
            c >= 0,
    ;
}

/// Law: once the data of a category is loaded, the category has data and its
/// monthly fee is the one loaded.
pub proof fn ley_datos_de_categoria_cargados(
    antes: ClubSemRust,
    despues: ClubSemRust,
    categoria: Categoria,
    datos: DatosCategoria,
)
    requires
        antes.wf(),
        datos.id == categoria.id_spec(),
        despues.categorias_data@ == antes.categorias_data@.update(categoria.id_spec() as int, Some(datos)),
    ensures
        despues.tiene_datos_spec(categoria.id_spec()),
        despues.costo_spec(categoria.id_spec()) == datos.costo_mensual_en_tokens,
{
}

/// Law: once a member is registered (the members become the old ones and
/// `socio`, under the next id), it is found under that id and by its
/// national id.
pub proof fn ley_socio_registrado_existe(antes: ClubSemRust, despues: ClubSemRust, socio: Socio)
    requires
        antes.socios@.len() < u128::MAX,
        despues.socios@ == antes.socios@.push(socio),
    ensures
        despues.existe_socio_spec((antes.socios@.len() + 1) as u128),
        despues.socio_spec((antes.socios@.len() + 1) as u128) == socio,
        exists|k: int|
            0 <= k < despues.socios@.len() && (#[trigger] despues.socios@[k]).datos_personales.dni
                == socio.datos_personales.dni,
{
    assert(despues.socios@[antes.socios@.len() as int] == socio);
}

/// Law: removing consecutive repetitions leaves no two equal neighbours and
/// keeps every value, and only the values, of the list.
pub proof fn ley_sin_repetidos_consecutivos(s: Seq<u128>)
    ensures
        forall|i: int|
            0 <= i < sin_repetidos_consecutivos(s).len() - 1 ==> #[trigger] sin_repetidos_consecutivos(s)[i]
                != sin_repetidos_consecutivos(s)[i + 1],
        forall|x: u128| s.contains(x) <==> #[trigger] sin_repetidos_consecutivos(s).contains(x),
    decreases s.len(),
{
    if s.len() > 0 {
        let pre = s.drop_last();
        ley_sin_repetidos_consecutivos(pre);
        let d = sin_repetidos_consecutivos(pre);
        let r = sin_repetidos_consecutivos(s);
        assert forall|x: u128| s.contains(x) <==> #[trigger] r.contains(x) by {
            if s.contains(x) {
                let k = choose|k: int| 0 <= k < s.len() && s[k] == x;
                if k < s.len() - 1 {
                    assert(pre[k] == x);
                    assert(pre.contains(x));
                    assert(d.contains(x));
                    let m = choose|m: int| 0 <= m < d.len() && d[m] == x;
                    assert(r[m] == x);
                } else {
                    assert(r[r.len() - 1] == x);
                }
            }
            if r.contains(x) {
                let m = choose|m: int| 0 <= m < r.len() && r[m] == x;
                if m < d.len() {
                    assert(d[m] == x);
                    assert(d.contains(x));
                    let k = choose|k: int| 0 <= k < pre.len() && pre[k] == x;
                    assert(s[k] == x);
                } else {
                    assert(s[s.len() - 1] == x);
                }
            }
        }
        assert forall|i: int| 0 <= i < r.len() - 1 implies #[trigger] r[i] != r[i + 1] by {
            if i + 1 < d.len() {
                assert(r[i] == d[i] && r[i + 1] == d[i + 1]);
            }
        }
    }
}

} // verus!
