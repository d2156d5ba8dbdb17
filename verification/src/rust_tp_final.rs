//! The first registry of the club: members are kept by national id, and a
//! member can only be registered in a category that has data.

use vstd::prelude::*;
use crate::fecha::LocalDateTime;

verus! {

/// The categories a member can pick.
#[derive(Debug, Clone, Copy, PartialEq, Eq, Structural)]
pub enum CategoriasDisponibles {
    A,
    B { id_deporte: u32 },
    C,
}

/// The activities of the club.
#[derive(Debug, Clone, Copy, PartialEq, Eq, Structural)]
pub enum Actividades {
    Futbol,
    Gimnasio,
    Basquet,
    Rugby,
    Hockey,
    Natacion,
    Tenis,
    Paddle,
}

/// Personal data of a member.
#[derive(Debug)]
pub struct DatosPersonalesSocio {
    pub nombre: String,
    pub apellido: String,
    pub dni: u32,
}

/// A category: its id, name and monthly fee.
#[derive(Debug)]
pub struct Categoria {
    pub id: u32,
    pub nombre: String,
    pub costo_mensual_en_tokens: u32,
}

/// A member: its id, the id of its category and its personal data.
#[derive(Debug)]
pub struct Socio {
    pub id: u32,
    pub categoria_id: u32,
    pub datos_personales: DatosPersonalesSocio,
}

/// A fee: its id, when it was paid (if it was), when it falls due, its
/// amount and whether it carries the discount.
#[derive(Debug, Clone, Copy)]
pub struct Pago {
    pub id: u32,
    pub fecha_de_pago: Option<LocalDateTime>,
    pub fecha_de_vencimiento: LocalDateTime,
    pub monto: u128,
    pub pago_con_bonificacion: bool,
}

/// The club: its members, activities and categories, each under its id,
/// the count of consecutive fees that earns the discount, and the fees.
#[derive(Debug)]
pub struct ClubSemRust {
    pub socios: Vec<Socio>,
    pub actividades: Vec<(u32, Actividades)>,
    pub categorias: Vec<Categoria>,
    pub cant_pagos_consecutivos_sin_atrasos_necesarios_paga_descuento: u32,
    pub pagos: Vec<Pago>,
}

/// Position in `socios` of the member with id `id`.
pub open spec fn posicion_socio(socios: Seq<Socio>, id: u32) -> Option<int> {
    if exists|i: int| 0 <= i < socios.len() && (#[trigger] socios[i]).id == id {
        Some(choose|i: int| 0 <= i < socios.len() && (#[trigger] socios[i]).id == id)
    } else {
        None
    }
}

impl ClubSemRust {
    /// No two members share an id.
    pub open spec fn wf(&self) -> bool {
        forall|i: int, j: int|
            0 <= i < j < self.socios@.len() ==> (#[trigger] self.socios@[i]).id != (#[trigger] self.socios@[j]).id
    }

    /// A category with id `id` is stored.
    pub open spec fn tiene_categoria(&self, id: u32) -> bool {
        exists|i: int| 0 <= i < self.categorias@.len() && (#[trigger] self.categorias@[i]).id == id
    }

    /// An empty club.
    pub fn new(cant_pagos_consecutivos_sin_atrasos_necesarios_paga_descuento: u32) -> (r: ClubSemRust)
        ensures
            r.wf(),
            r.socios@.len() == 0,
            r.actividades@.len() == 0,
            r.categorias@.len() == 0,
            r.pagos@.len() == 0,
            r.cant_pagos_consecutivos_sin_atrasos_necesarios_paga_descuento
                == cant_pagos_consecutivos_sin_atrasos_necesarios_paga_descuento,
    {
        ClubSemRust {
            socios: Vec::new(),
            actividades: Vec::new(),
            categorias: Vec::new(),
            cant_pagos_consecutivos_sin_atrasos_necesarios_paga_descuento,
            pagos: Vec::new(),
        }
    }

    /// Sets how many consecutive fees paid on time earn the discount.
    pub fn set_cant_pagos_consecutivos_sin_atrasos_necesarios_paga_descuento(&mut self, cant: u32)
        ensures
            *final(self) == (ClubSemRust {
                cant_pagos_consecutivos_sin_atrasos_necesarios_paga_descuento: cant,
                ..*old(self)
            }),
    {
        self.cant_pagos_consecutivos_sin_atrasos_necesarios_paga_descuento = cant;
    }

    /// How many consecutive fees paid on time earn the discount.
    pub fn get_cant_pagos_consecutivos_sin_atrasos_necesarios_paga_descuento(&mut self, _cant: u32) -> (r:
        u32)
        ensures
            r == old(self).cant_pagos_consecutivos_sin_atrasos_necesarios_paga_descuento,
            *final(self) == *old(self),
    {
        self.cant_pagos_consecutivos_sin_atrasos_necesarios_paga_descuento
    }

    /// The monthly fee of the category with id `categoria_id`.
    pub fn costo_de_categoria(&self, categoria_id: u32) -> (r: u32)
        requires
            self.tiene_categoria(categoria_id),
        ensures
            exists|i: int|
                0 <= i < self.categorias@.len() && (#[trigger] self.categorias@[i]).id == categoria_id
                    && self.categorias@[i].costo_mensual_en_tokens == r && forall|j: int|
                    0 <= j < i ==> (#[trigger] self.categorias@[j]).id != categoria_id,
    {
        let mut i: usize = 0;
        while i < self.categorias.len()
            invariant
                i <= self.categorias@.len(),
                self.tiene_categoria(categoria_id),
                forall|j: int| 0 <= j < i ==> (#[trigger] self.categorias@[j]).id != categoria_id,
            decreases self.categorias@.len() - i,
        {
            if self.categorias[i].id == categoria_id {
                return self.categorias[i].costo_mensual_en_tokens;
            }
            i = i + 1;
        }
        proof {
            let k = choose|k: int| 0 <= k < self.categorias@.len() && (#[trigger] self.categorias@[k]).id
                == categoria_id;
            assert(self.categorias@[k].id != categoria_id);
        }
        0
    }

    /// Stores a member with id `dni` (replacing the member stored under that
    /// id, if any) in category `categoria_id`, which must be stored.
    pub fn registrar_nuevo_socio(&mut self, nombre: String, apellido: String, dni: u32, categoria_id: u32)
        requires
            old(self).wf(),
            old(self).tiene_categoria(categoria_id),
        ensures
            final(self).wf(),
            ({
                let socio = Socio {
                    id: dni,
                    categoria_id,
                    datos_personales: DatosPersonalesSocio { nombre, apellido, dni },
                };
                match posicion_socio(old(self).socios@, dni) {
                    Some(i) => final(self).socios@ == old(self).socios@.update(i, socio),
                    None => final(self).socios@ == old(self).socios@.push(socio),
                }
            }),
            final(self).actividades@ == old(self).actividades@,
            final(self).categorias@ == old(self).categorias@,
            final(self).pagos@ == old(self).pagos@,
            final(self).cant_pagos_consecutivos_sin_atrasos_necesarios_paga_descuento
                == old(self).cant_pagos_consecutivos_sin_atrasos_necesarios_paga_descuento,
    {
        let _monto = self.costo_de_categoria(categoria_id);
        let info_personal_del_socio = DatosPersonalesSocio { nombre, apellido, dni };
        let socio = Socio { id: dni, categoria_id, datos_personales: info_personal_del_socio };
        let posicion = self.buscar_socio(dni);
        let ghost antes = self.socios@;
        match posicion {
            Some(p) => {
                proof {
                    let k = choose|k: int| 0 <= k < antes.len() && (#[trigger] antes[k]).id == dni;
                    if k != p {
                        if k < p {
                            assert(antes[k].id != antes[p as int].id);
                        } else {
                            assert(antes[p as int].id != antes[k].id);
                        }
                    }
                }
                self.socios.set(p, socio);
            },
            None => {
                self.socios.push(socio);
            },
        }
        proof {
            assert forall|a: int, b: int|
                0 <= a < b < self.socios@.len() implies (#[trigger] self.socios@[a]).id != (
                #[trigger] self.socios@[b]).id by {
                if b == antes.len() {
                    assert(antes[a].id != dni);
                } else if posicion is Some && a == posicion->0 {
                    assert(antes[b].id != antes[a].id);
                } else if posicion is Some && b == posicion->0 {
                    assert(antes[a].id != antes[b].id);
                } else {
                    assert(self.socios@[a] == antes[a]);
                    assert(self.socios@[b] == antes[b]);
                }
            }
        }
    }

    /// Position of the member with id `id`, if one is stored.
    fn buscar_socio(&self, id: u32) -> (r: Option<usize>)
        ensures
            match r {
                Some(p) => p < self.socios@.len() && self.socios@[p as int].id == id,
                None => forall|j: int| 0 <= j < self.socios@.len() ==> (#[trigger] self.socios@[j]).id != id,
            },
    {
        let mut i: usize = 0;
        while i < self.socios.len()
            invariant
                i <= self.socios@.len(),
                forall|j: int| 0 <= j < i ==> (#[trigger] self.socios@[j]).id != id,
            decreases self.socios@.len() - i,
        {
            if self.socios[i].id == id {
                return Some(i);
            }
            i = i + 1;
        }
        None
    }
}

} // verus!
