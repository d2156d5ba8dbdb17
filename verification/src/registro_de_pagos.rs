//! A smaller registry of the club: the authorization policy, the ids it
//! hands out, and whether a member earns the discount on its next fee.
//!
//! Here the authorization policy grants permission to everyone while it is
//! on, and a fee is overdue only when it was paid after its due date.

use vstd::prelude::*;
use crate::cuenta::{contiene, AccountId};

verus! {

/// The categories of membership; `Cantidad` stands after the last one.
#[derive(Debug, Clone, Copy, PartialEq, Eq, Structural)]
pub enum Categoria {
    A,
    B { id_deporte_seleccionado_por_el_usuario: u32 },
    C,
    Cantidad,
}

impl Categoria {
    pub open spec fn id_spec(self) -> u32 {
        match self {
            Categoria::A => 0,
            Categoria::B { .. } => 1,
            Categoria::C => 2,
            Categoria::Cantidad => 3,
        }
    }

    /// Id of the category: its position among the variants.
    pub fn discriminant(&self) -> (r: u32)
        ensures
            r == self.id_spec(),
    {
        match self {
            Categoria::A => 0,
            Categoria::B { .. } => 1,
            Categoria::C => 2,
            Categoria::Cantidad => 3,
        }
    }
}

/// The activities of the club.
#[derive(Debug, Clone, Copy, PartialEq, Eq, Structural)]
pub enum Actividad {
    Futbol,
    Gimnasio,
    Basquet,
    Rugby,
    Hockey,
    Natacion,
    Tenis,
    Paddle,
}

/// Personal data of a member.
#[derive(Debug)]
pub struct DatosPersonalesSocio {
    pub nombre: String,
    pub apellido: String,
    pub dni: u32,
}

/// The data of a category.
#[derive(Debug)]
pub struct DatosCategoria {
    pub id: u32,
    pub nombre: String,
    pub costo_mensual_en_tokens: u32,
    pub actividades_accesibles_base: Vec<Actividad>,
}

/// A member.
#[derive(Debug)]
pub struct Socio {
    pub id: u32,
    pub categoria: Categoria,
    pub datos_personales: DatosPersonalesSocio,
}

/// A fee of a member.
#[derive(Debug, Clone, Copy, PartialEq, Eq)]
pub struct Pago {
    pub id: u32,
    pub socio_id: u32,
    pub fecha_de_pago: Option<u64>,
    pub fecha_de_vencimiento: u64,
    pub monto: u128,
    pub tiene_bonificacion: bool,
}

/// The kinds of ids that the club hands out.
#[derive(Debug, Clone, Copy, PartialEq, Eq)]
pub enum TipoId {
    Socio,
    Pago,
}

/// Counters of the club's tables.
#[derive(Debug)]
pub struct MappingLens {
    pub socios: u32,
}

/// The club.
#[derive(Debug)]
pub struct ClubSemRust {
    pub politica_de_autorizacion_activada: bool,
    pub duenio_account_id: AccountId,
    pub editores: Vec<AccountId>,
    pub socios: Vec<Socio>,
    pub categorias_data: Vec<DatosCategoria>,
    pub pagos: Vec<Pago>,
    pub mapping_lens: MappingLens,
    pub cant_pagos_consecutivos_sin_atrasos_necesarios_para_descuento: u32,
    pub porcentaje_de_descuento_por_bonificacion: u32,
    pub fecha_de_la_ultima_actualizacion: u64,
}

/// A fee is overdue when it was paid after its due date.
pub open spec fn vencido_spec(p: Pago) -> bool {
    match p.fecha_de_pago {
        Some(f) => f > p.fecha_de_vencimiento,
        None => false,
    }
}

/// A fee counts towards the discount when it carries no discount and is not overdue.
pub open spec fn pago_cumplido(p: Pago) -> bool {
    !p.tiene_bonificacion && !vencido_spec(p)
}

/// The fees of `pagos` that belong to member `socio_id`, in order.
pub open spec fn pagos_del_socio(pagos: Seq<Pago>, socio_id: u32) -> Seq<Pago>
    decreases pagos.len(),
{
    if pagos.len() == 0 {
        Seq::empty()
    } else if pagos.last().socio_id == socio_id {
        pagos_del_socio(pagos.drop_last(), socio_id).push(pagos.last())
    } else {
        pagos_del_socio(pagos.drop_last(), socio_id)
    }
}

/// How many of the last fees of `pagos` count towards the discount without a gap.
pub open spec fn racha(pagos: Seq<Pago>) -> nat
    decreases pagos.len(),
{
    if pagos.len() == 0 {
        0
    } else if pago_cumplido(pagos.last()) {
        1 + racha(pagos.drop_last())
    } else {
        0
    }
}

/// Member `socio_id` earns the discount: with a positive count `n`, its
/// latest `n` fees all count towards it; with a count of zero, the latest fee
/// of the club is not one of its fees that counts.
pub open spec fn cumple_spec(pagos: Seq<Pago>, socio_id: u32, n: u32) -> bool {
    if n == 0 {
        pagos.len() == 0 || pagos.last().socio_id != socio_id || !pago_cumplido(pagos.last())
    } else {
        racha(pagos_del_socio(pagos, socio_id)) >= n
    }
}

proof fn lema_racha(pagos: Seq<Pago>, k: int)
    requires
        0 <= k < pagos.len(),
    ensures
        (racha(pagos) > k) == (racha(pagos) >= k && pago_cumplido(pagos[pagos.len() - 1 - k])),
        racha(pagos) <= pagos.len(),
    decreases pagos.len(),
{
    lema_racha_acotada(pagos);
    if k > 0 {
        let pre = pagos.drop_last();
        lema_racha(pre, k - 1);
        assert(pre[pre.len() - 1 - (k - 1)] == pagos[pagos.len() - 1 - k]);
    }
}

proof fn lema_racha_acotada(pagos: Seq<Pago>)
    ensures
        racha(pagos) <= pagos.len(),
    decreases pagos.len(),
{
    if pagos.len() > 0 {
        lema_racha_acotada(pagos.drop_last());
    }
}

/// Walking the fees from the latest back, after the fees from position `i`
/// on, the member's fees among them are the last ones of its own list.
proof fn lema_sufijo_del_socio(pagos: Seq<Pago>, socio_id: u32, i: int)
    requires
        0 <= i <= pagos.len(),
    ensures
        pagos_del_socio(pagos, socio_id) == pagos_del_socio(pagos.take(i), socio_id) + pagos_del_socio(
            pagos.skip(i),
            socio_id,
        ),
{
    assert(pagos =~= pagos.take(i) + pagos.skip(i));
    lema_del_socio_concat(pagos.take(i), pagos.skip(i), socio_id);
}

proof fn lema_del_socio_uno(p: Pago, socio_id: u32)
    ensures
        p.socio_id == socio_id ==> pagos_del_socio(seq![p], socio_id) == seq![p],
        p.socio_id != socio_id ==> pagos_del_socio(seq![p], socio_id) == Seq::<Pago>::empty(),
{
    assert(seq![p].drop_last() =~= Seq::<Pago>::empty());
    assert(seq![p].last() == p);
    assert(pagos_del_socio(Seq::<Pago>::empty(), socio_id) == Seq::<Pago>::empty());
    assert(Seq::<Pago>::empty().push(p) =~= seq![p]);
}

proof fn lema_del_socio_concat(a: Seq<Pago>, b: Seq<Pago>, socio_id: u32)
    ensures
        pagos_del_socio(a + b, socio_id) == pagos_del_socio(a, socio_id) + pagos_del_socio(b, socio_id),
    decreases b.len(),
{
    if b.len() == 0 {
        assert(a + b =~= a);
        assert(pagos_del_socio(a, socio_id) + Seq::<Pago>::empty() =~= pagos_del_socio(a, socio_id));
    } else {
        lema_del_socio_concat(a, b.drop_last(), socio_id);
        assert((a + b).drop_last() =~= a + b.drop_last());
        assert((a + b).last() == b.last());
        if b.last().socio_id == socio_id {
            assert(pagos_del_socio(a, socio_id) + pagos_del_socio(b, socio_id) =~= (pagos_del_socio(a, socio_id)
                + pagos_del_socio(b.drop_last(), socio_id)).push(b.last()));
        }
    }
}

impl ClubSemRust {
    pub open spec fn es_editor_spec(&self, caller: AccountId) -> bool {
        self.editores@.contains(caller)
    }

    /// While the policy is on anyone may operate; otherwise the owner and the editors.
    pub open spec fn tiene_permiso_spec(&self, caller: AccountId) -> bool {
        self.politica_de_autorizacion_activada || self.duenio_account_id == caller || self.es_editor_spec(
            caller,
        )
    }

    /// A club owned by `duenio_account_id`, with the policy on, no members,
    /// no category data and no fees; a discount over 99% is taken as 0%. Its
    /// last update is the clock's reading `ahora`.
    pub fn new(
        duenio_account_id: AccountId,
        cant_pagos_consecutivos_sin_atrasos_necesarios_para_descuento: u32,
        porcentaje_de_descuento_por_bonificacion: u32,
        ahora: u64,
    ) -> (r: ClubSemRust)
        ensures
            r.politica_de_autorizacion_activada,
            r.duenio_account_id == duenio_account_id,
            r.editores@.len() == 0,
            r.socios@.len() == 0,
            r.categorias_data@.len() == 0,
            r.pagos@.len() == 0,
            r.mapping_lens.socios == 0,
            r.cant_pagos_consecutivos_sin_atrasos_necesarios_para_descuento
                == cant_pagos_consecutivos_sin_atrasos_necesarios_para_descuento,
            r.porcentaje_de_descuento_por_bonificacion == if porcentaje_de_descuento_por_bonificacion > 99 {
                0
            } else {
                porcentaje_de_descuento_por_bonificacion
            },
            r.fecha_de_la_ultima_actualizacion == ahora,
    {
        let mut porcentaje_de_descuento_por_bonificacion = porcentaje_de_descuento_por_bonificacion;
        if porcentaje_de_descuento_por_bonificacion > 99 {
            porcentaje_de_descuento_por_bonificacion = 0
        }
        let mut csr = ClubSemRust {
            politica_de_autorizacion_activada: true,
            duenio_account_id,
            editores: Vec::new(),
            socios: Vec::new(),
            categorias_data: Vec::new(),
            pagos: Vec::new(),
            mapping_lens: MappingLens { socios: 0 },
            cant_pagos_consecutivos_sin_atrasos_necesarios_para_descuento,
            porcentaje_de_descuento_por_bonificacion,
            fecha_de_la_ultima_actualizacion: 0,
        };
        csr.fecha_de_la_ultima_actualizacion = ahora;
        csr.pagos = Vec::new();
        csr
    }

    /// The caller may operate on the club.
    pub fn tiene_permiso(&self, caller: &AccountId) -> (r: bool)
        ensures
            r == self.tiene_permiso_spec(*caller),
    {
        self.politica_de_autorizacion_activada || self.es_duenio(caller) || self.es_editor(caller)
    }

    /// The caller is the owner.
    pub fn es_duenio(&self, caller: &AccountId) -> (r: bool)
        ensures
            r == (self.duenio_account_id == *caller),
    {
        self.duenio_account_id.es_igual(caller)
    }

    /// The caller is an editor.
    pub fn es_editor(&self, caller: &AccountId) -> (r: bool)
        ensures
            r == self.es_editor_spec(*caller),
    {
        contiene(&self.editores, caller)
    }

    /// The next id of a fee (one more than the number of fees, modulo 2^32),
    /// or of a member (the member counter, moved one forward).
    pub fn nueva_id(&mut self, tipo_id: TipoId) -> (r: u32)
        requires
            tipo_id == TipoId::Socio ==> old(self).mapping_lens.socios < u32::MAX,
            old(self).pagos@.len() < usize::MAX,
        ensures
            tipo_id == TipoId::Pago ==> r == ((old(self).pagos@.len() + 1) as u32) && *final(self) == *old(
                self,
            ),
            tipo_id == TipoId::Socio ==> r == old(self).mapping_lens.socios + 1 && *final(self) == (ClubSemRust {
                mapping_lens: MappingLens { socios: r },
                ..*old(self)
            }),
    {
        match tipo_id {
            TipoId::Pago => { return (self.pagos.len() + 1) as u32 },
            TipoId::Socio => {
                self.mapping_lens.socios = self.mapping_lens.socios + 1;
                return self.mapping_lens.socios
            },
        }
    }

    /// Whether member `socio_id` earns the discount on its next fee.
    pub fn socio_cumple_las_condiciones_para_obtener_la_bonificacion(&self, socio_id: u32) -> (r: bool)
        requires
            self.cant_pagos_consecutivos_sin_atrasos_necesarios_para_descuento == 0 ==> pagos_del_socio(
                self.pagos@,
                socio_id,
            ).len() <= u32::MAX,
        ensures
            r == cumple_spec(
                self.pagos@,
                socio_id,
                self.cant_pagos_consecutivos_sin_atrasos_necesarios_para_descuento,
            ),
    {
        let pagos = &self.pagos;
        let cant_pagos = pagos.len();
        let n = self.cant_pagos_consecutivos_sin_atrasos_necesarios_para_descuento;
        if cant_pagos < n as usize {
            proof {
                lema_del_socio_acotado(pagos@, socio_id);
                lema_racha_acotada(pagos_del_socio(pagos@, socio_id));
            }
            return false;
        }
        let ghost s = pagos@;
        let ghost propios = pagos_del_socio(s, socio_id);
        proof {
            lema_racha_acotada(propios);
            lema_del_socio_acotado(s, socio_id);
        }
        let mut cant_pagos_del_usuario: u32 = 0;
        let mut cant_pagos_del_usuario_que_cumplen_la_condicion: u32 = 0;
        let mut terminado = false;
        let mut k: usize = 0;
        while k < cant_pagos && !terminado
            invariant
                s == pagos@,
                cant_pagos == s.len(),
                propios == pagos_del_socio(s, socio_id),
                n == self.cant_pagos_consecutivos_sin_atrasos_necesarios_para_descuento,
                n == 0 ==> propios.len() <= u32::MAX,
                racha(propios) <= propios.len(),
                k <= s.len(),
                !terminado ==> {
                    let vistos = pagos_del_socio(s.skip(s.len() - k), socio_id);
                    &&& cant_pagos_del_usuario == vistos.len()
                    &&& cant_pagos_del_usuario_que_cumplen_la_condicion == vistos.len()
                    &&& racha(propios) >= vistos.len()
                    &&& n > 0 ==> vistos.len() < n
                    &&& n == 0 ==> (k == 0 || (s.last().socio_id == socio_id && pago_cumplido(s.last())))
                },
                terminado ==> ((cant_pagos_del_usuario_que_cumplen_la_condicion == n) == cumple_spec(
                    s,
                    socio_id,
                    n,
                )),
            decreases s.len() - k,
        {
            let idx = cant_pagos - 1 - k;
            let pago = pagos[idx];
            proof {
                lema_sufijo_del_socio(s, socio_id, idx as int);
                assert(s.skip(idx as int) =~= seq![pago] + s.skip(idx + 1));
                lema_del_socio_concat(seq![pago], s.skip(idx + 1), socio_id);
                lema_del_socio_uno(pago, socio_id);
                assert(seq![pago].drop_last() =~= Seq::<Pago>::empty());
                assert(seq![pago].last() == pago);
                assert(s.len() - k == idx + 1);
                assert(s.len() - (k + 1) == idx);
                lema_del_socio_acotado(s.skip(idx + 1), socio_id);
                lema_del_socio_acotado(s.take(idx as int), socio_id);
                let vistos = pagos_del_socio(s.skip(idx + 1), socio_id);
                if pago.socio_id == socio_id {
                    let m = vistos.len();
                    lema_racha(propios, m as int);
                    assert(pagos_del_socio(seq![pago], socio_id) =~= seq![pago]);
                    assert(propios =~= pagos_del_socio(s.take(idx as int), socio_id) + (seq![pago] + vistos));
                    assert(propios[propios.len() - 1 - m] == pago);
                } else {
                    assert(pagos_del_socio(seq![pago], socio_id) =~= Seq::<Pago>::empty());
                    assert(pagos_del_socio(s.skip(idx as int), socio_id) =~= vistos);
                }
            }
            if pago.socio_id == socio_id {
                cant_pagos_del_usuario = cant_pagos_del_usuario + 1;
                if !pago.tiene_bonificacion && !self.pago_esta_vencido(&pago) {
                    cant_pagos_del_usuario_que_cumplen_la_condicion = cant_pagos_del_usuario_que_cumplen_la_condicion
                        + 1;
                }
            }
            if cant_pagos_del_usuario == n || cant_pagos_del_usuario
                > cant_pagos_del_usuario_que_cumplen_la_condicion {
                terminado = true;
            }
            k = k + 1;
        }
        if !terminado {
            assert(s.skip(0) =~= s);
        }
        cant_pagos_del_usuario_que_cumplen_la_condicion == n
    }

    /// Fee `pago` is overdue: it was paid after its due date.
    pub fn pago_esta_vencido(&self, pago: &Pago) -> (r: bool)
        ensures
            r == vencido_spec(*pago),
    {
        if let Some(fecha_de_pago) = pago.fecha_de_pago {
            return fecha_de_pago > pago.fecha_de_vencimiento;
        }
        false
    }

    /// The number of categories: the id of `Categoria::Cantidad`.
    pub fn cant_categorias(&self) -> (r: u32)
        ensures
            r == 3,
    {
        Categoria::Cantidad.discriminant()
    }
}

proof fn lema_del_socio_acotado(pagos: Seq<Pago>, socio_id: u32)
    ensures
        pagos_del_socio(pagos, socio_id).len() <= pagos.len(),
    decreases pagos.len(),
{
    if pagos.len() > 0 {
        lema_del_socio_acotado(pagos.drop_last(), socio_id);
    }
}

} // verus!
